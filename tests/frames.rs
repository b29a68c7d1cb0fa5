use modbus_rtu::client::{write_multiple, write_single};
use modbus_rtu::crc::{check_crc, with_crc};
use modbus_rtu::rtu::{Poll, Reader, DEFAULT_TIMEOUT_MS};
use modbus_rtu::binary::pack_bytes;
use modbus_rtu::{Connection, Error, Function, Reason};

fn outcome(p: Poll) -> Option<Result<Vec<u8>, Error>> {
    match p {
        Poll::Pending => None,
        Poll::Ready(r) => Some(r),
    }
}

#[test]
fn crc_of_known_frame() {
    let frame = with_crc(&[0x01, 0x03, 0x00, 0x00, 0x00, 0x02]);
    assert_eq!(frame, vec![0x01, 0x03, 0x00, 0x00, 0x00, 0x02, 0xc4, 0x0b]);
}

#[test]
fn crc_is_deterministic() {
    let body = [0x11, 0x22, 0x33, 0x44];
    assert_eq!(with_crc(&body), with_crc(&body));
    let flipped = [0x11, 0x22, 0x33, 0x45];
    assert_ne!(with_crc(&body)[4..], with_crc(&flipped)[4..]);
}

#[test]
fn check_crc_accepts_and_rejects() {
    let frame = with_crc(&[0x01, 0x06, 0x00, 0x00, 0x00, 0x2c]);
    assert_eq!(check_crc(&frame), Ok(vec![0x01, 0x06, 0x00, 0x00, 0x00, 0x2c]));
    let mut bad = frame.clone();
    let n = bad.len();
    bad[n - 1] ^= 0xff;
    assert_eq!(check_crc(&bad), Err(Error::IncorrectCRC));
}

#[test]
fn connection_defaults_and_server() {
    let conn = Connection::new(7u32);
    assert_eq!(conn.timeout_ms(), DEFAULT_TIMEOUT_MS);
    assert_eq!(*conn.port(), 7);
    let server = conn.get_server(9);
    assert_eq!(server.id(), 9);
    assert_eq!(server.connection().timeout_ms(), DEFAULT_TIMEOUT_MS);
    assert_eq!(Connection::with_timeout((), 250).timeout_ms(), 250);
}

#[test]
fn read_request_frame() {
    let conn = Connection::new(());
    let server = conn.get_server(1);
    let ex = server.read_request(&Function::ReadHoldingRegisters(0, 2)).unwrap();
    assert_eq!(ex.frame, vec![0x01, 0x03, 0x00, 0x00, 0x00, 0x02, 0xc4, 0x0b]);
}

#[test]
fn read_holding_registers_decodes_payload() {
    let conn = Connection::new(());
    let server = conn.get_server(1);
    let mut ex = server.read_request(&Function::ReadHoldingRegisters(0, 2)).unwrap();
    let reply = with_crc(&[0x01, 0x03, 0x04, 0x00, 0x2c, 0x00, 0x2c]);
    let payload = outcome(ex.reader.step(0, &reply)).unwrap().unwrap();
    assert_eq!(payload, vec![0x00, 0x2c, 0x00, 0x2c]);
    assert_eq!(pack_bytes(&payload), Ok(vec![44, 44]));
}

#[test]
fn reply_accumulates_over_steps() {
    let conn = Connection::new(());
    let server = conn.get_server(4);
    let mut ex = server.read_request(&Function::ReadCoils(16, 10)).unwrap();
    let reply = with_crc(&[0x04, 0x01, 0x02, 0x05, 0x01]);
    assert!(outcome(ex.reader.step(0, &reply[..2])).is_none());
    assert!(outcome(ex.reader.step(10, &reply[2..5])).is_none());
    let payload = outcome(ex.reader.step(20, &reply[5..])).unwrap().unwrap();
    assert_eq!(payload, vec![0x05, 0x01]);
}

#[test]
fn zero_count_reads_are_refused() {
    let conn = Connection::new(());
    let server = conn.get_server(1);
    let reads = [
        Function::ReadCoils(0, 0),
        Function::ReadDiscreteInputs(0, 0),
        Function::ReadHoldingRegisters(0, 0),
        Function::ReadInputRegisters(0, 0),
    ];
    for f in reads.iter() {
        match server.read_request(f) {
            Err(e) => assert_eq!(e, Error::InvalidData(Reason::RecvBufferEmpty)),
            Ok(_) => panic!("a read of zero items was framed"),
        }
    }
}

#[test]
fn write_functions_are_not_reads() {
    let conn = Connection::new(());
    let server = conn.get_server(1);
    match server.read_request(&Function::WriteSingleRegister(0, 1)) {
        Err(e) => assert_eq!(e, Error::InvalidFunction),
        Ok(_) => panic!("a write was framed as a read"),
    }
}

#[test]
fn wrong_unit_id_fails_fast() {
    let conn = Connection::new(());
    let server = conn.get_server(1);
    let mut ex = server.read_request(&Function::ReadHoldingRegisters(0, 2)).unwrap();
    assert_eq!(outcome(ex.reader.step(0, &[0x02])), Some(Err(Error::InvalidResponse)));
}

#[test]
fn wrong_function_code_fails_fast() {
    let conn = Connection::new(());
    let server = conn.get_server(1);
    let mut ex = server.read_request(&Function::ReadHoldingRegisters(0, 2)).unwrap();
    assert_eq!(outcome(ex.reader.step(0, &[0x01, 0x83, 0x02])), Some(Err(Error::InvalidResponse)));
}

#[test]
fn incomplete_reply_times_out_at_deadline() {
    let conn = Connection::with_timeout((), 100);
    let server = conn.get_server(1);
    let mut ex = server.read_request(&Function::ReadHoldingRegisters(0, 2)).unwrap();
    assert!(outcome(ex.reader.step(0, &[0x01, 0x03, 0x04])).is_none());
    assert!(outcome(ex.reader.step(99, &[])).is_none());
    assert_eq!(outcome(ex.reader.step(100, &[])), Some(Err(Error::TimeOut)));
}

#[test]
fn corrupted_trailer_is_a_crc_error() {
    let conn = Connection::new(());
    let server = conn.get_server(1);
    let mut ex = server.read_request(&Function::ReadHoldingRegisters(0, 2)).unwrap();
    let mut reply = with_crc(&[0x01, 0x03, 0x04, 0x00, 0x2c, 0x00, 0x2c]);
    let n = reply.len();
    reply[n - 2] ^= 0x01;
    reply[n - 1] ^= 0x80;
    assert_eq!(outcome(ex.reader.step(0, &reply)), Some(Err(Error::IncorrectCRC)));
}

#[test]
fn unknown_length_comes_from_byte_count() {
    let mut reader = Reader::new(None, 1, 3, 1000, 3);
    let reply = with_crc(&[0x01, 0x03, 0x02, 0x12, 0x34]);
    assert!(outcome(reader.step(0, &reply[..3])).is_none());
    assert!(outcome(reader.step(1, &reply[3..6])).is_none());
    assert_eq!(outcome(reader.step(2, &reply[6..])), Some(Ok(vec![0x12, 0x34])));
}

#[test]
fn write_single_register_then_read_back() {
    let conn = Connection::new(());
    let server = conn.get_server(1);
    let body = write_single(&Function::WriteSingleRegister(0, 44)).unwrap();
    assert_eq!(body, vec![0x06, 0x00, 0x00, 0x00, 0x2c]);
    let mut ex = server.write_request(&body);
    let echo = ex.frame.clone();
    assert_eq!(outcome(ex.reader.step(0, &echo)), Some(Ok(vec![0x01, 0x06, 0x00, 0x00, 0x00, 0x2c])));
    let mut ex = server.read_request(&Function::ReadHoldingRegisters(0, 1)).unwrap();
    let reply = with_crc(&[0x01, 0x03, 0x02, 0x00, 0x2c]);
    let payload = outcome(ex.reader.step(0, &reply)).unwrap().unwrap();
    assert_eq!(pack_bytes(&payload), Ok(vec![44]));
}

#[test]
fn write_single_encodes_coil() {
    let body = write_single(&Function::WriteSingleCoil(0x0102, 0xff00)).unwrap();
    assert_eq!(body, vec![0x05, 0x01, 0x02, 0xff, 0x00]);
    assert_eq!(write_single(&Function::ReadCoils(0, 1)), Err(Error::InvalidFunction));
}

#[test]
fn write_multiple_encodes_payload() {
    let data = [0x00u8, 0x2c, 0x01, 0x00];
    let body = write_multiple(&Function::WriteMultipleRegisters(0x0010, 2, &data)).unwrap();
    assert_eq!(body, vec![0x10, 0x00, 0x10, 0x00, 0x02, 0x04, 0x00, 0x2c, 0x01, 0x00]);
    let coils = [0x05u8];
    let body = write_multiple(&Function::WriteMultipleCoils(3, 3, &coils)).unwrap();
    assert_eq!(body, vec![0x0f, 0x00, 0x03, 0x00, 0x03, 0x01, 0x05]);
    assert_eq!(write_multiple(&Function::WriteSingleCoil(0, 0)), Err(Error::InvalidFunction));
}

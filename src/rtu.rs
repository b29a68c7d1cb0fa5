//! Serial transport: request frames for a unit, and the reader that
//! accumulates the unit's reply under a deadline.
use crate::crc::{
    check_crc, checked_body, crc_trailer, framed, lemma_corrupt_trailer_rejected, modbus_crc,
    with_crc,
};
use crate::error::{Error, Reason};
use crate::function::Function;
use vstd::prelude::*;

verus! {

/// How long a reply may take, in milliseconds, unless the connection is
/// given another bound.
pub const DEFAULT_TIMEOUT_MS: u64 = 5000;

/// The high byte of a big-endian field.
pub open spec fn hi(v: u16) -> u8 {
    (v / 256) as u8
}

/// The low byte of a big-endian field.
pub open spec fn lo(v: u16) -> u8 {
    (v % 256) as u8
}

/// Address, count and payload length in bytes of a read request; `None` for
/// a write.
pub open spec fn read_operands(f: Function) -> Option<(u16, u16, nat)> {
    match f {
        Function::ReadCoils(a, c) | Function::ReadDiscreteInputs(a, c) => Some(
            (a, c, if c % 8 == 0 { (c / 8) as nat } else { (c / 8 + 1) as nat }),
        ),
        Function::ReadHoldingRegisters(a, c) | Function::ReadInputRegisters(a, c) => Some(
            (a, c, (2 * c) as nat),
        ),
        _ => None,
    }
}

/// The body of a read request to unit `id`: id, code, address, count.
pub open spec fn read_body(id: u8, code: u8, addr: u16, count: u16) -> Seq<u8> {
    seq![id, code, hi(addr), lo(addr), hi(count), lo(count)]
}

/// The owner of one byte-stream device and of the deadline for replies.
pub struct Connection<T> {
    port: T,
    timeout_ms: u64,
}

impl<T> Connection<T> {
    pub closed spec fn spec_port(&self) -> T {
        self.port
    }

    pub closed spec fn spec_timeout_ms(&self) -> u64 {
        self.timeout_ms
    }

    /// A connection over `port` with the default deadline.
    pub fn new(port: T) -> (r: Connection<T>)
        ensures
            r.spec_port() == port,
            r.spec_timeout_ms() == DEFAULT_TIMEOUT_MS,
    {
        Connection { port, timeout_ms: DEFAULT_TIMEOUT_MS }
    }

    /// A connection over `port` whose replies may take `timeout_ms`.
    pub fn with_timeout(port: T, timeout_ms: u64) -> (r: Connection<T>)
        ensures
            r.spec_port() == port,
            r.spec_timeout_ms() == timeout_ms,
    {
        Connection { port, timeout_ms }
    }

    /// The device.
    pub fn port(&self) -> (r: &T)
        ensures
            *r == self.spec_port(),
    {
        &self.port
    }

    /// The deadline for a reply, in milliseconds.
    pub fn timeout_ms(&self) -> (r: u64)
        ensures
            r == self.spec_timeout_ms(),
    {
        self.timeout_ms
    }

    /// A handle for the unit with address `id` on this connection's bus.
    pub fn get_server<'a>(&'a self, id: u8) -> (r: Server<'a, T>)
        ensures
            r.spec_id() == id,
            *r.spec_connection() == *self,
    {
        Server { id, connection: self }
    }
}

/// One unit on the bus of a connection.
pub struct Server<'a, T> {
    id: u8,
    connection: &'a Connection<T>,
}

/// A request ready to go: the bytes to send and the reader for the reply.
pub struct Exchange {
    pub frame: Vec<u8>,
    pub reader: Reader,
}

impl<'a, T> Server<'a, T> {
    pub closed spec fn spec_id(&self) -> u8 {
        self.id
    }

    pub closed spec fn spec_connection(&self) -> &'a Connection<T> {
        self.connection
    }

    /// The unit address.
    pub fn id(&self) -> (r: u8)
        ensures
            r == self.spec_id(),
    {
        self.id
    }

    /// The connection this handle belongs to.
    pub fn connection(&self) -> (r: &'a Connection<T>)
        ensures
            r == self.spec_connection(),
    {
        self.connection
    }

    /// The request for a read: the framed id, code, address and count, and a
    /// reader that expects the header, the payload and the checksum and hands
    /// back the payload. A write is refused, as is a count of zero.
    pub fn read_request(&self, fun: &Function) -> (r: Result<Exchange, Error>)
        ensures
            read_operands(*fun) is None ==> r == Err::<Exchange, Error>(Error::InvalidFunction),
            read_operands(*fun) matches Some((addr, count, len)) ==> {
                &&& count == 0 ==> r == Err::<Exchange, Error>(
                    Error::InvalidData(Reason::RecvBufferEmpty),
                )
                &&& count > 0 ==> (r matches Ok(ex) && ex.frame@ == framed(
                    read_body(self.spec_id(), fun.spec_code(), addr, count),
                ) && ex.reader.is_fresh(
                    Some(len + 5),
                    self.spec_id(),
                    fun.spec_code(),
                    self.spec_connection().spec_timeout_ms(),
                    3,
                ))
            },
    {
        let (addr, count, expected): (u16, u16, usize) = match *fun {
            Function::ReadCoils(a, c) | Function::ReadDiscreteInputs(a, c) => {
                (a, c, (c / 8 + if c % 8 > 0 { 1u16 } else { 0u16 }) as usize)
            },
            Function::ReadHoldingRegisters(a, c) | Function::ReadInputRegisters(a, c) => {
                (a, c, 2 * c as usize)
            },
            _ => return Err(Error::InvalidFunction),
        };
        if count < 1 {
            return Err(Error::InvalidData(Reason::RecvBufferEmpty));
        }
        let code = fun.code();
        let mut msg: Vec<u8> = Vec::with_capacity(6);
        msg.push(self.id);
        msg.push(code);
        msg.push((addr / 256) as u8);
        msg.push((addr % 256) as u8);
        msg.push((count / 256) as u8);
        msg.push((count % 256) as u8);
        assert(msg@ =~= read_body(self.id, code, addr, count));
        let frame = with_crc(&msg);
        let reader = Reader::new(Some(expected + 5), self.id, code, self.connection.timeout_ms, 3);
        Ok(Exchange { frame, reader })
    }

    /// The request for a write whose body (code and operands) is `buff`: the
    /// framed id and body, and a reader that expects the eight-byte echo.
    pub fn write_request(&self, buff: &[u8]) -> (r: Exchange)
        requires
            buff@.len() >= 1,
            buff@.len() + 3 <= usize::MAX,
        ensures
            r.frame@ == framed(seq![self.spec_id()] + buff@),
            r.reader.is_fresh(
                Some(8),
                self.spec_id(),
                buff@[0],
                self.spec_connection().spec_timeout_ms(),
                0,
            ),
    {
        let mut msg: Vec<u8> = Vec::with_capacity(buff.len() + 1);
        msg.push(self.id);
        let mut i: usize = 0;
        while i < buff.len()
            invariant
                i <= buff@.len(),
                msg@ == seq![self.id] + buff@.take(i as int),
            decreases buff@.len() - i,
        {
            msg.push(buff[i]);
            i = i + 1;
            assert(msg@ =~= seq![self.id] + buff@.take(i as int));
        }
        assert(buff@.take(buff@.len() as int) =~= buff@);
        let frame = with_crc(&msg);
        let reader = Reader::new(Some(8), self.id, buff[0], self.connection.timeout_ms, 0);
        Exchange { frame, reader }
    }
}

/// Whether the first two bytes received, where present, are the unit id and
/// the function code asked for.
pub open spec fn header_ok(buf: Seq<u8>, id: u8, code: u8) -> bool {
    &&& buf.len() >= 1 ==> buf[0] == id
    &&& buf.len() >= 2 ==> buf[1] == code
}

/// What a complete reply gives: its body past `header` bytes when its
/// checksum holds, else the checksum error.
pub open spec fn reply_result(frame: Seq<u8>, header: nat) -> Result<Seq<u8>, Error> {
    match checked_body(frame) {
        Ok(body) => Ok(body.skip(header as int)),
        Err(e) => Err(e),
    }
}

/// A complete reply whose last two bytes are not the checksum of the rest
/// fails with the checksum error, even where its id, code and length are
/// right.
pub proof fn lemma_corrupt_reply_rejected(body: Seq<u8>, lo: u8, hi: u8, header: nat)
    requires
        seq![lo, hi] != crc_trailer(modbus_crc(body)),
    ensures
        reply_result(body + seq![lo, hi], header) == Err::<Seq<u8>, Error>(Error::IncorrectCRC),
{
    lemma_corrupt_trailer_rejected(body, lo, hi);
}

/// The outcome of one step of a reader.
pub enum Poll {
    /// The reply is not complete yet: read more and step again.
    Pending,
    /// The exchange is over, with this outcome.
    Ready(Result<Vec<u8>, Error>),
}

impl Poll {
    /// `None` while pending; else the outcome, with the payload as a sequence.
    pub open spec fn outcome(self) -> Option<Result<Seq<u8>, Error>> {
        match self {
            Poll::Pending => None,
            Poll::Ready(Ok(v)) => Some(Ok(v@)),
            Poll::Ready(Err(e)) => Some(Err(e)),
        }
    }
}

/// An inbound frame as it accumulates.
pub struct Reader {
    buf: Vec<u8>,
    expected: Option<usize>,
    id: u8,
    code: u8,
    timeout_ms: u64,
    header: usize,
}

impl Reader {
    /// The bytes received so far.
    pub closed spec fn received(&self) -> Seq<u8> {
        self.buf@
    }

    /// The length of the whole reply, checksum included, once it is known.
    pub closed spec fn expected_len(&self) -> Option<usize> {
        self.expected
    }

    pub closed spec fn spec_id(&self) -> u8 {
        self.id
    }

    pub closed spec fn spec_code(&self) -> u8 {
        self.code
    }

    pub closed spec fn spec_timeout_ms(&self) -> u64 {
        self.timeout_ms
    }

    /// How many bytes of header precede the payload that is handed back.
    pub closed spec fn spec_header(&self) -> nat {
        self.header as nat
    }

    /// A known length leaves room for the header and the checksum; an unknown
    /// one is read from the reply's byte count and then always does.
    pub closed spec fn wf(&self) -> bool {
        &&& self.header <= 3
        &&& self.expected matches Some(n) ==> n >= self.header + 2
    }

    /// A reader that has received nothing, with these settings.
    pub open spec fn is_fresh(
        &self,
        expected: Option<nat>,
        id: u8,
        code: u8,
        timeout_ms: u64,
        header: nat,
    ) -> bool {
        &&& self.wf()
        &&& self.received() == Seq::<u8>::empty()
        &&& match (self.expected_len(), expected) {
            (Some(a), Some(b)) => a == b,
            (None, None) => true,
            _ => false,
        }
        &&& self.spec_id() == id
        &&& self.spec_code() == code
        &&& self.spec_timeout_ms() == timeout_ms
        &&& self.spec_header() == header
    }

    /// A reader for a reply from unit `id` to function `code`, of `expected`
    /// bytes in all, or of a length taken from the reply's byte count, and
    /// whose payload starts after `header` bytes.
    pub fn new(expected: Option<usize>, id: u8, code: u8, timeout_ms: u64, header: usize) -> (r:
        Reader)
        requires
            header <= 3,
            expected matches Some(n) ==> n >= header + 2,
        ensures
            r.is_fresh(
                match expected {
                    Some(n) => Some(n as nat),
                    None => None,
                },
                id,
                code,
                timeout_ms,
                header as nat,
            ),
    {
        Reader { buf: Vec::new(), expected, id, code, timeout_ms, header }
    }

    /// One round of the read loop, `elapsed_ms` after it began: once the
    /// deadline has passed the reply has timed out; else `chunk`, the bytes
    /// that came since the last round, is added. A wrong unit id or function
    /// code ends the exchange at once; a complete reply ends it with its
    /// checked payload; an unknown length is set from the byte count, the
    /// third byte, plus five.
    pub fn step(&mut self, elapsed_ms: u64, chunk: &[u8]) -> (r: Poll)
        requires
            old(self).wf(),
        ensures
            final(self).wf(),
            final(self).spec_id() == old(self).spec_id(),
            final(self).spec_code() == old(self).spec_code(),
            final(self).spec_timeout_ms() == old(self).spec_timeout_ms(),
            final(self).spec_header() == old(self).spec_header(),
            elapsed_ms >= old(self).spec_timeout_ms() ==> {
                &&& r.outcome() == Some(Err::<Seq<u8>, Error>(Error::TimeOut))
                &&& final(self).received() == old(self).received()
            },
            elapsed_ms < old(self).spec_timeout_ms() ==> {
                let buf = old(self).received() + chunk@;
                let id = old(self).spec_id();
                let code = old(self).spec_code();
                &&& r.outcome() != Some(Err::<Seq<u8>, Error>(Error::TimeOut))
                &&& final(self).received() == buf
                &&& !header_ok(buf, id, code) ==> r.outcome() == Some(
                    Err::<Seq<u8>, Error>(Error::InvalidResponse),
                )
                &&& header_ok(buf, id, code) ==> match old(self).expected_len() {
                    Some(n) => if buf.len() >= n {
                        r.outcome() == Some(reply_result(buf, old(self).spec_header()))
                    } else {
                        r.outcome() is None && final(self).expected_len() == Some(n)
                    },
                    None => {
                        &&& r.outcome() is None
                        &&& buf.len() >= 3 ==> final(self).expected_len() == Some(
                            (buf[2] + 5) as usize,
                        )
                        &&& buf.len() < 3 ==> final(self).expected_len() is None
                    },
                }
            },
    {
        if elapsed_ms >= self.timeout_ms {
            return Poll::Ready(Err(Error::TimeOut));
        }
        let ghost start = self.buf@;
        let ghost before = *self;
        let mut i: usize = 0;
        while i < chunk.len()
            invariant
                i <= chunk@.len(),
                self.expected == before.expected,
                self.id == before.id,
                self.code == before.code,
                self.timeout_ms == before.timeout_ms,
                self.header == before.header,
                before.wf(),
                self.buf@ == start + chunk@.take(i as int),
            decreases chunk@.len() - i,
        {
            self.buf.push(chunk[i]);
            i = i + 1;
            assert(self.buf@ =~= start + chunk@.take(i as int));
        }
        assert(chunk@.take(chunk@.len() as int) =~= chunk@);
        let len = self.buf.len();
        if len >= 1 && self.buf[0] != self.id {
            return Poll::Ready(Err(Error::InvalidResponse));
        }
        if len >= 2 && self.buf[1] != self.code {
            return Poll::Ready(Err(Error::InvalidResponse));
        }
        match self.expected {
            Some(n) => {
                if len >= n {
                    return Poll::Ready(self.payload());
                }
                Poll::Pending
            },
            None => {
                if len >= 3 {
                    self.expected = Some(self.buf[2] as usize + 5);
                }
                Poll::Pending
            },
        }
    }

    /// Checks the checksum of the complete reply and strips the header.
    fn payload(&self) -> (r: Result<Vec<u8>, Error>)
        requires
            self.wf(),
            self.expected matches Some(n) && self.buf@.len() >= n,
        ensures
            r matches Ok(p) ==> reply_result(self.buf@, self.header as nat) == Ok::<
                Seq<u8>,
                Error,
            >(p@),
            r matches Err(e) ==> reply_result(self.buf@, self.header as nat) == Err::<
                Seq<u8>,
                Error,
            >(e),
    {
        let body = check_crc(&self.buf)?;
        let mut out: Vec<u8> = Vec::with_capacity(body.len() - self.header);
        let mut i: usize = self.header;
        while i < body.len()
            invariant
                self.header <= i <= body@.len(),
                out@ == body@.subrange(self.header as int, i as int),
            decreases body@.len() - i,
        {
            out.push(body[i]);
            i = i + 1;
            assert(out@ =~= body@.subrange(self.header as int, i as int));
        }
        assert(out@ =~= body@.skip(self.header as int));
        Ok(out)
    }
}

} // verus!

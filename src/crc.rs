//! The Modbus CRC-16 and the checksum trailer of a frame.
use crate::error::Error;
use vstd::prelude::*;

verus! {

/// The Modbus CRC-16 of a byte sequence.
pub uninterp spec fn modbus_crc(bytes: Seq<u8>) -> u16;

/// Relies on `crc16::State::<crc16::MODBUS>::calculate`: the Modbus CRC-16
/// of the bytes, a function of the bytes alone.
#[verifier::external_body]
pub(crate) fn calculate(bytes: &[u8]) -> (r: u16)
    ensures
        r == modbus_crc(bytes@),
{
    crc16::State::<crc16::MODBUS>::calculate(bytes)
}

/// A checksum as it is sent: low byte first.
pub open spec fn crc_trailer(c: u16) -> Seq<u8> {
    seq![(c % 256) as u8, (c / 256) as u8]
}

/// `body` followed by its checksum.
pub open spec fn framed(body: Seq<u8>) -> Seq<u8> {
    body + crc_trailer(modbus_crc(body))
}

/// The 16-bit value of a received trailer: the first byte is the low half.
pub open spec fn trailer_value(lo: u8, hi: u8) -> u16 {
    (hi as int * 256 + lo as int) as u16
}

/// What checking the trailer of `frame` gives: the bytes before the last
/// two, when those two hold their checksum; else the checksum error.
pub open spec fn checked_body(frame: Seq<u8>) -> Result<Seq<u8>, Error> {
    let n = frame.len() - 2;
    let body = frame.take(n);
    if trailer_value(frame[n], frame[n + 1]) == modbus_crc(body) {
        Ok(body)
    } else {
        Err(Error::IncorrectCRC)
    }
}

/// Appends the checksum of `body`, low byte first.
pub fn with_crc(body: &[u8]) -> (r: Vec<u8>)
    requires
        body@.len() + 2 <= usize::MAX,
    ensures
        r@ == framed(body@),
{
    let c = calculate(body);
    let mut msg: Vec<u8> = Vec::with_capacity(body.len() + 2);
    let mut i: usize = 0;
    while i < body.len()
        invariant
            i <= body@.len(),
            msg@ == body@.take(i as int),
        decreases body@.len() - i,
    {
        msg.push(body[i]);
        i = i + 1;
        assert(msg@ =~= body@.take(i as int));
    }
    msg.push((c % 256) as u8);
    msg.push((c / 256) as u8);
    assert(msg@ =~= framed(body@));
    msg
}

/// Splits the trailing checksum off `frame` and checks it against the rest.
pub fn check_crc(frame: &[u8]) -> (r: Result<Vec<u8>, Error>)
    requires
        frame@.len() >= 2,
    ensures
        r matches Ok(b) ==> checked_body(frame@) == Ok::<Seq<u8>, Error>(b@),
        r matches Err(e) ==> checked_body(frame@) == Err::<Seq<u8>, Error>(e),
{
    let n = frame.len() - 2;
    let mut body: Vec<u8> = Vec::with_capacity(n);
    let mut i: usize = 0;
    while i < n
        invariant
            n == frame@.len() - 2,
            i <= n,
            body@ == frame@.take(i as int),
        decreases n - i,
    {
        body.push(frame[i]);
        i = i + 1;
        assert(body@ =~= frame@.take(i as int));
    }
    let received: u16 = frame[n + 1] as u16 * 256 + frame[n] as u16;
    let correct = calculate(&body);
    if received != correct {
        return Err(Error::IncorrectCRC);
    }
    Ok(body)
}

/// Equal bytes have equal checksums, so two computations over the same bytes
/// agree.
pub proof fn lemma_crc_deterministic(a: Seq<u8>, b: Seq<u8>)
    requires
        a == b,
    ensures
        modbus_crc(a) == modbus_crc(b),
{
}

/// A frame whose body is followed by its own checksum passes the check and
/// gives back the body.
pub proof fn lemma_framed_accepted(body: Seq<u8>)
    ensures
        checked_body(framed(body)) == Ok::<Seq<u8>, Error>(body),
{
    let f = framed(body);
    let c = modbus_crc(body);
    assert(f.take(body.len() as int) =~= body);
    assert(trailer_value((c % 256) as u8, (c / 256) as u8) == c);
}

/// A frame whose last two bytes are not the checksum of the rest fails with
/// the checksum error, whatever the rest holds.
pub proof fn lemma_corrupt_trailer_rejected(body: Seq<u8>, lo: u8, hi: u8)
    requires
        seq![lo, hi] != crc_trailer(modbus_crc(body)),
    ensures
        checked_body(body + seq![lo, hi]) == Err::<Seq<u8>, Error>(Error::IncorrectCRC),
{
    let f = body + seq![lo, hi];
    let c = modbus_crc(body);
    assert(f.take(body.len() as int) =~= body);
    if trailer_value(lo, hi) == c {
        assert(lo == (c % 256) as u8 && hi == (c / 256) as u8);
        assert(seq![lo, hi] =~= crc_trailer(c));
    }
}

} // verus!

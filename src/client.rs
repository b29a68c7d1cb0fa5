//! Request bodies of the write operations: function code and operands,
//! without the unit id and the checksum.
use crate::error::Error;
use crate::function::Function;
use crate::binary::words_of;
use crate::crc::{framed, lemma_framed_accepted};
use crate::rtu::{hi, lo, reply_result};
use vstd::prelude::*;

verus! {

/// Code, address and value of a single write.
pub open spec fn single_body(code: u8, addr: u16, value: u16) -> Seq<u8> {
    seq![code, hi(addr), lo(addr), hi(value), lo(value)]
}

/// Code, address, quantity, byte count and bytes of a multiple write; the
/// byte count is the number of bytes modulo 256.
pub open spec fn multiple_body(code: u8, addr: u16, quantity: u16, values: Seq<u8>) -> Seq<u8> {
    seq![code, hi(addr), lo(addr), hi(quantity), lo(quantity), (values.len() % 256) as u8]
        + values
}

fn push_u16(buff: &mut Vec<u8>, v: u16)
    ensures
        final(buff)@ == old(buff)@ + seq![hi(v), lo(v)],
{
    buff.push((v / 256) as u8);
    buff.push((v % 256) as u8);
}

/// The body of a single-coil or single-register write; any other function
/// is refused.
pub fn write_single(fun: &Function) -> (r: Result<Vec<u8>, Error>)
    ensures
        match *fun {
            Function::WriteSingleCoil(a, v) | Function::WriteSingleRegister(a, v) => (r matches Ok(
                b,
            ) && b@ == single_body(fun.spec_code(), a, v)),
            _ => r == Err::<Vec<u8>, Error>(Error::InvalidFunction),
        },
{
    let (addr, value) = match *fun {
        Function::WriteSingleCoil(a, v) | Function::WriteSingleRegister(a, v) => (a, v),
        _ => return Err(Error::InvalidFunction),
    };
    let mut buff: Vec<u8> = Vec::with_capacity(5);
    buff.push(fun.code());
    push_u16(&mut buff, addr);
    push_u16(&mut buff, value);
    assert(buff@ =~= single_body(fun.spec_code(), addr, value));
    Ok(buff)
}

/// The body of a multiple-coil or multiple-register write; any other
/// function is refused.
pub fn write_multiple(fun: &Function) -> (r: Result<Vec<u8>, Error>)
    ensures
        match *fun {
            Function::WriteMultipleCoils(a, q, v) | Function::WriteMultipleRegisters(
                a,
                q,
                v,
            ) => (r matches Ok(b) && b@ == multiple_body(fun.spec_code(), a, q, v@)),
            _ => r == Err::<Vec<u8>, Error>(Error::InvalidFunction),
        },
{
    let (addr, quantity, values) = match *fun {
        Function::WriteMultipleCoils(a, q, v) | Function::WriteMultipleRegisters(a, q, v) => (
            a,
            q,
            v,
        ),
        _ => return Err(Error::InvalidFunction),
    };
    let mut buff: Vec<u8> = Vec::with_capacity(6);
    buff.push(fun.code());
    push_u16(&mut buff, addr);
    push_u16(&mut buff, quantity);
    buff.push((values.len() % 256) as u8);
    let ghost head = buff@;
    let mut i: usize = 0;
    while i < values.len()
        invariant
            i <= values@.len(),
            buff@ == head + values@.take(i as int),
        decreases values@.len() - i,
    {
        buff.push(values[i]);
        i = i + 1;
        assert(buff@ =~= head + values@.take(i as int));
    }
    assert(values@.take(values@.len() as int) =~= values@);
    assert(buff@ =~= multiple_body(fun.spec_code(), addr, quantity, values@));
    Ok(buff)
}

/// On a unit that echoes a write and then holds the written value: the echo
/// of a single-register write of `v` is accepted, and the reply to a read of
/// that one register gives back `v`.
pub proof fn lemma_register_write_read_back(id: u8, addr: u16, v: u16)
    ensures
        reply_result(framed(seq![id] + single_body(6, addr, v)), 0) == Ok::<Seq<u8>, Error>(
            seq![id] + single_body(6, addr, v),
        ),
        reply_result(framed(seq![id, 3u8, 2u8, hi(v), lo(v)]), 3) == Ok::<Seq<u8>, Error>(
            seq![hi(v), lo(v)],
        ),
        words_of(seq![hi(v), lo(v)]) == seq![v],
{
    let echo = seq![id] + single_body(6, addr, v);
    lemma_framed_accepted(echo);
    assert(echo.skip(0) =~= echo);
    let reply = seq![id, 3u8, 2u8, hi(v), lo(v)];
    lemma_framed_accepted(reply);
    assert(reply.skip(3) =~= seq![hi(v), lo(v)]);
    let w = words_of(seq![hi(v), lo(v)]);
    assert(w[0] == v) by {
        assert(hi(v) as int * 256 + lo(v) as int == v) by (nonlinear_arith)
            requires
                hi(v) as int == v as int / 256,
                lo(v) as int == v as int % 256,
        ;
    }
    assert(w =~= seq![v]);
}

} // verus!

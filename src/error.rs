use vstd::prelude::*;

verus! {

/// Why a payload could not be used.
#[derive(Clone, Copy, Debug, PartialEq, Eq, Structural)]
pub enum Reason {
    /// A read asked for zero items.
    RecvBufferEmpty,
    /// A register payload held an odd number of bytes.
    BytecountNotEven,
    /// A payload was shorter than the request asked for.
    UnexpectedReplySize,
}

/// Every way an operation of this library can fail.
#[derive(Clone, Copy, Debug, PartialEq, Eq, Structural)]
pub enum Error {
    /// The function is of the wrong kind for the encoder it was given to.
    InvalidFunction,
    /// The request or the reply holds unusable data.
    InvalidData(Reason),
    /// The reply's unit id or function code differs from the request's.
    InvalidResponse,
    /// The reply's checksum does not match its contents.
    IncorrectCRC,
    /// The deadline passed before the reply was complete.
    TimeOut,
    /// The device was held by another caller.
    DeviceUnavailable,
}

} // verus!

//! Modbus RTU master: frame construction, CRC-16 checking, an incremental
//! response reader and the typed register and coil operations built on them.

pub mod binary;
pub mod client;
pub mod crc;
pub mod error;
pub mod function;
pub mod rtu;

pub use error::{Error, Reason};
pub use function::{Coil, Function};
pub use rtu::{Connection, Server};

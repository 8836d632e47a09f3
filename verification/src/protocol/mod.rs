//! Wire protocol primitives: variable-length integers, buffers and packets.

pub mod big_endian;
pub mod buffer;
pub mod bytes_io;
pub mod packet;
pub mod varint;
pub mod varlong;

pub mod crc;
pub mod error;
pub mod protocol;
pub mod frame;
pub mod update;

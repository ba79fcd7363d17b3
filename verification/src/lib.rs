//! The protocol core of a daemon that speaks the KIS / DebugUSB protocol of
//! Apple Silicon machines and carries their "dockchannel" UART.
//!
//! Nothing here performs I/O. Each operation that alternates USB transfers and
//! decisions is a step function: it takes what the device answered and says
//! which request comes next. The daemon around the library performs the
//! requests.

pub mod base;
pub mod buffer;
pub mod daemon;
pub mod device;
pub mod endpoint;
pub mod error;
pub mod le;
pub mod order;
pub mod uart_rx;
pub mod uart_tx;
pub mod wire;

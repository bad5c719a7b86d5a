//! A TFTP-style packet and transfer library: the wire format of the
//! requests, data and acknowledgement packets that this client and server
//! exchange (read and write requests both carry opcode 1; a server takes
//! opcode 1 as a write and opcode 2 as a read), and the decisions
//! that drive a transfer, each stated and proved over sequences of bytes.

pub mod agent;
pub mod error;
pub mod packet;

pub use agent::{request_filename, Agent, Received, RwMod};
pub use error::TftpError;
pub use packet::{htons, pack_ack, pack_data, pack_read, pack_write, Packet};

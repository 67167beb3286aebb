//! EtherNet/IP encapsulation: packet header, common packet format,
//! commands, and the framing of a byte stream into packets.

pub mod encapsulation;
pub mod command;
pub mod common_packet;
pub mod reply;

//! EtherNet/IP and CIP message encoding, decoding and the client-side
//! protocol rules, with contracts checked by Verus.
#![allow(unused_imports)]

pub mod ab_eip;
pub mod buf;
pub mod cip;
pub mod client;
pub mod codec;
pub mod consts;
pub mod eip;
pub mod error;

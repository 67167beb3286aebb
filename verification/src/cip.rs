//! CIP objects: paths, socket addresses, identity and service descriptions.

pub mod connection;
pub mod epath;
pub mod forward;
pub mod identity;
pub mod item;
pub mod mr;
pub mod reply;
pub mod request;
pub mod socket;



//! Client-side protocol state: CIP connections and device discovery.

pub mod connection;
pub mod discovery;
pub mod host;

//! Services and data types of Allen-Bradley (Rockwell) controllers.

pub mod instance;
pub mod path;
pub mod symbol;
pub mod tag_value;
pub mod template;
pub mod service;
pub mod value;

pub use crate::cip::mr::HasMore;

//! The names that most callers need.

pub use crate::model::Command;
pub use crate::model::Failure;
pub use crate::model::Response;

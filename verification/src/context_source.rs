//! Context sources: what they are asked, what they answer and what is kept of it.
pub mod records;
pub mod runtime;

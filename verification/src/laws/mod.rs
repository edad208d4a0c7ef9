//! What holds of the library as a whole.

pub mod calls;
pub mod launching;
pub mod namespace;
pub mod ordering;
pub mod running;
pub mod serving;
pub mod validation;

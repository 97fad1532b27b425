//! Loading of programs by init.

pub mod program;

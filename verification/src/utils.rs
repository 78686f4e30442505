//! Text handling, wire parsing and address handling.

pub mod date;
pub mod parse;
pub mod text;
pub mod validation;

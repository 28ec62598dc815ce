//! A single-pass lexical scanner for a small C-like scripting language.
//!
//! [`scanner::scan_tokens`] turns source text into a flat sequence of
//! [`token_type::Token`]s, or into the list of every lexical error found.
//! What it returns is stated over the mathematical model in [`model`], and
//! [`theorems`] proves what holds of that model for every text.

pub mod text;
pub mod token_type;
pub mod model;
pub mod scanner;
pub mod theorems;

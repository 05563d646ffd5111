//! Memorable passphrases made of dictionary words, digits, separators and
//! padding, generated under a validated configuration.
pub mod config;
pub mod consts;
pub mod password_maker;
pub mod random;
pub mod test_helpers;
pub mod text;
pub mod types;
pub mod word_transformer;

pub use password_maker::PasswordMaker;

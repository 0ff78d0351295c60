//! A recognizer for one fixed nineteen-symbol pattern over a seven-symbol
//! alphabet, with the text codec of that alphabet.
pub mod element;
pub mod automaton;
pub mod tokenizer;

pub use automaton::SuumoState;
pub use element::{DecodeError, SuumoElement};
pub use tokenizer::try_string_to_suumo_elements;

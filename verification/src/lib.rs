//! Normalization of tokenized bibliographic metadata (titles, author names)
//! into a canonical, comparable form for record-alignment tasks.
//!
//! The caller supplies an ordered sequence of string tokens; a cleaner is
//! constructed over it and `clean()` reduces it, in a variant-specific order,
//! by sequence transforms (subtitle truncation, balanced-delimiter span
//! removal, minimum-length filtering, empty-token purge) and per-token
//! transforms (entity decode, lowercase fold, ASCII transliteration,
//! non-ASCII strip, digit/punctuation strip, trim).

pub mod chars;
pub mod cleaners;
pub mod entities;
pub mod laws;
pub mod sequence;
pub mod stemming;
pub mod subseq;
pub mod token;
pub mod transforms;
pub mod translit;

pub use cleaners::{clean_author, clean_title, AuthorCleaner, Clean, TextCleaner, TitleCleaner};
pub use entities::decode_token_html_entities;
pub use sequence::{remove_tokens_between_delimiters, tokens_split_at_strong_punctuation};
pub use stemming::StemAlgorithm;
pub use token::Token;
pub use transforms::{
    remove_token_digit, remove_token_digit_and_punctuation, remove_token_non_ascii_chars,
    remove_token_punctuation, token_to_lowercase, token_trim,
};
pub use translit::unidecode_token;

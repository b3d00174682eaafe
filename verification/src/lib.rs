//! Random passwords drawn from a configurable mix of character classes, with
//! every requested class guaranteed to appear at least once.

pub mod answers;
pub mod classes;
pub mod generate;
pub mod outcome;
pub mod random;
pub mod request;
pub mod validate;

pub use answers::{parse_length, parse_yes_no, white_space};
pub use classes::{classify, CharacterClass, LOWERCASE, NUMBERS, SPECIAL_CHARACTERS, UPPERCASE};
pub use generate::push_pick;
pub use request::{GeneratePassword, MINIMUM_LENGTH};
pub use validate::ClassesFound;

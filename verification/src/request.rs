//! What a caller asks for: a length and the character classes to draw from.

use crate::classes::{class_of, lemma_alphabet, CharacterClass};
use crate::classes::{LOWERCASE, NUMBERS, SPECIAL_CHARACTERS, UPPERCASE};
use vstd::prelude::*;
use vstd::string::*;

verus! {

/// The shortest password that is ever generated: room for one character of
/// each of the four classes.
pub const MINIMUM_LENGTH: u8 = 4;

/// A request for one password.
///
/// With no class selected the request stands for digits only.
#[derive(Clone, Copy, Debug)]
pub struct GeneratePassword {
    pub length: u8,
    pub lowercase: bool,
    pub uppercase: bool,
    pub numbers: bool,
    pub special_characters: bool,
}

/// Whether some character of `password` belongs to `class`.
pub open spec fn contains_class(password: Seq<char>, class: CharacterClass) -> bool {
    exists|i: int| 0 <= i < password.len() && class_of(#[trigger] password[i]) == Some(class)
}

/// Appending a character adds its class, and no other, to the classes that
/// occur in a password.
pub proof fn lemma_contains_class_push(password: Seq<char>, c: char, class: CharacterClass)
    ensures
        contains_class(password.push(c), class) <==> contains_class(password, class) || class_of(c)
            == Some(class),
{
    let longer = password.push(c);
    if contains_class(password, class) {
        let i = choose|i: int| 0 <= i < password.len() && class_of(#[trigger] password[i]) == Some(class);
        assert(longer[i] == password[i]);
    }
    if class_of(c) == Some(class) {
        assert(longer[password.len() as int] == c);
    }
    if contains_class(longer, class) {
        let i = choose|i: int| 0 <= i < longer.len() && class_of(#[trigger] longer[i]) == Some(class);
        if i < password.len() {
            assert(password[i] == longer[i]);
        }
    }
}

impl Default for GeneratePassword {
    /// Four characters, no class selected.
    fn default() -> (request: Self)
        ensures
            request.length == 4,
            !request.lowercase,
            !request.uppercase,
            !request.numbers,
            !request.special_characters,
    {
        GeneratePassword {
            length: 4,
            lowercase: false,
            uppercase: false,
            numbers: false,
            special_characters: false,
        }
    }
}

impl GeneratePassword {
    /// Whether the request selects `class`.
    pub open spec fn wants(self, class: CharacterClass) -> bool {
        match class {
            CharacterClass::Lowercase => self.lowercase,
            CharacterClass::Uppercase => self.uppercase,
            CharacterClass::Digit => self.numbers,
            CharacterClass::Special => self.special_characters,
        }
    }

    /// Whether no class is selected, so that the digits stand in.
    pub open spec fn default_set(self) -> bool {
        !self.lowercase && !self.uppercase && !self.numbers && !self.special_characters
    }

    /// The length of the generated password: the requested one, but at least
    /// four.
    pub open spec fn target_length(self) -> nat {
        if self.length < 4 {
            4
        } else {
            self.length as nat
        }
    }

    /// The selected classes in declaration order.
    pub open spec fn guarantees(self) -> Seq<CharacterClass> {
        (if self.lowercase {
            seq![CharacterClass::Lowercase]
        } else {
            Seq::empty()
        }) + (if self.uppercase {
            seq![CharacterClass::Uppercase]
        } else {
            Seq::empty()
        }) + (if self.numbers {
            seq![CharacterClass::Digit]
        } else {
            Seq::empty()
        }) + (if self.special_characters {
            seq![CharacterClass::Special]
        } else {
            Seq::empty()
        })
    }

    /// The characters a password may be made of: the alphabets of the
    /// selected classes one after another, or the digits if none is selected.
    pub open spec fn allowed(self) -> Seq<char> {
        if self.default_set() {
            NUMBERS@
        } else {
            (if self.lowercase {
                LOWERCASE@
            } else {
                Seq::empty()
            }) + (if self.uppercase {
                UPPERCASE@
            } else {
                Seq::empty()
            }) + (if self.numbers {
                NUMBERS@
            } else {
                Seq::empty()
            }) + (if self.special_characters {
                SPECIAL_CHARACTERS@
            } else {
                Seq::empty()
            })
        }
    }

    /// Whether a candidate is valid: any candidate is when no class is
    /// selected; otherwise a class occurs in the candidate exactly when it is
    /// selected.
    pub open spec fn accepts(self, password: Seq<char>) -> bool {
        self.default_set() || forall|class: CharacterClass|
            #[trigger] contains_class(password, class) == self.wants(class)
    }

    /// Whether no class is selected.
    pub fn is_default_set(&self) -> (b: bool)
        ensures
            b == self.default_set(),
    {
        !self.lowercase && !self.uppercase && !self.numbers && !self.special_characters
    }

    /// The length of the password to generate.
    pub fn effective_length(&self) -> (n: u8)
        ensures
            n == self.target_length(),
    {
        if self.length < MINIMUM_LENGTH {
            MINIMUM_LENGTH
        } else {
            self.length
        }
    }

    /// The classes that must each contribute a character.
    pub fn guaranteed(&self) -> (list: Vec<CharacterClass>)
        ensures
            list@ == self.guarantees(),
    {
        let mut list: Vec<CharacterClass> = Vec::new();
        if self.lowercase {
            list.push(CharacterClass::Lowercase);
        }
        if self.uppercase {
            list.push(CharacterClass::Uppercase);
        }
        if self.numbers {
            list.push(CharacterClass::Digit);
        }
        if self.special_characters {
            list.push(CharacterClass::Special);
        }
        assert(list@ =~= self.guarantees());
        list
    }

    /// The characters to draw from, as one string.
    pub fn wanted_characters(&self) -> (alphabet: String)
        ensures
            alphabet@ == self.allowed(),
            alphabet.is_ascii(),
    {
        let mut alphabet = String::new();
        if self.lowercase {
            alphabet.append(LOWERCASE);
        }
        if self.uppercase {
            alphabet.append(UPPERCASE);
        }
        if self.numbers {
            alphabet.append(NUMBERS);
        }
        if self.special_characters {
            alphabet.append(SPECIAL_CHARACTERS);
        }
        if self.is_default_set() {
            alphabet.append(NUMBERS);
        }
        proof {
            assert(alphabet@ =~= self.allowed());
            lemma_alphabet(CharacterClass::Lowercase);
            lemma_alphabet(CharacterClass::Uppercase);
            lemma_alphabet(CharacterClass::Digit);
            lemma_alphabet(CharacterClass::Special);
        }
        alphabet
    }
}

} // verus!

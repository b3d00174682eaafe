//! Validation: which classes a candidate password holds, and whether they
//! are the selected ones.

use crate::classes::{classify, CharacterClass};
use crate::request::{contains_class, lemma_contains_class_push, GeneratePassword};
use vstd::prelude::*;
use vstd::string::*;

verus! {

/// Which of the four classes occur among the characters of a password.
#[derive(Clone, Copy, Debug, PartialEq, Eq, Structural)]
pub struct ClassesFound {
    pub lowercase: bool,
    pub uppercase: bool,
    pub numbers: bool,
    pub special_characters: bool,
}

impl ClassesFound {
    /// The record of the classes that occur in `password`.
    pub open spec fn of(password: Seq<char>) -> ClassesFound {
        ClassesFound {
            lowercase: contains_class(password, CharacterClass::Lowercase),
            uppercase: contains_class(password, CharacterClass::Uppercase),
            numbers: contains_class(password, CharacterClass::Digit),
            special_characters: contains_class(password, CharacterClass::Special),
        }
    }

    /// Scans the password once and records the class of every character that
    /// has one.
    pub fn scan(password: &str) -> (found: ClassesFound)
        ensures
            found == ClassesFound::of(password@),
    {
        let mut found = ClassesFound {
            lowercase: false,
            uppercase: false,
            numbers: false,
            special_characters: false,
        };
        let n = password.unicode_len();
        let mut i: usize = 0;
        assert(password@.take(0) =~= Seq::<char>::empty());
        while i < n
            invariant
                n == password@.len(),
                i <= n,
                found == ClassesFound::of(password@.take(i as int)),
            decreases n - i,
        {
            let c = password.get_char(i);
            proof {
                let seen = password@.take(i as int);
                assert(password@.take(i + 1) =~= seen.push(c));
                lemma_contains_class_push(seen, c, CharacterClass::Lowercase);
                lemma_contains_class_push(seen, c, CharacterClass::Uppercase);
                lemma_contains_class_push(seen, c, CharacterClass::Digit);
                lemma_contains_class_push(seen, c, CharacterClass::Special);
            }
            match classify(c) {
                Some(CharacterClass::Lowercase) => {
                    found.lowercase = true;
                },
                Some(CharacterClass::Uppercase) => {
                    found.uppercase = true;
                },
                Some(CharacterClass::Digit) => {
                    found.numbers = true;
                },
                Some(CharacterClass::Special) => {
                    found.special_characters = true;
                },
                None => {},
            }
            i = i + 1;
        }
        assert(password@.take(n as int) =~= password@);
        found
    }
}

impl GeneratePassword {
    /// Decides whether a candidate is returned or thrown away.
    pub fn is_complete(&self, password: &str) -> (complete: bool)
        ensures
            complete == self.accepts(password@),
    {
        let found = ClassesFound::scan(password);
        proof {
            if found.lowercase == self.lowercase && found.uppercase == self.uppercase
                && found.numbers == self.numbers && found.special_characters
                == self.special_characters {
                assert forall|class: CharacterClass|
                    #[trigger] contains_class(password@, class) == self.wants(class) by {
                    match class {
                        CharacterClass::Lowercase => {},
                        CharacterClass::Uppercase => {},
                        CharacterClass::Digit => {},
                        CharacterClass::Special => {},
                    }
                }
            }
        }
        found.lowercase == self.lowercase && found.uppercase == self.uppercase && found.numbers
            == self.numbers && found.special_characters == self.special_characters
            || self.is_default_set()
    }
}

} // verus!

//! The four fixed character classes and how a character is assigned to one.

use vstd::prelude::*;

verus! {

/// The lowercase letters.
pub const LOWERCASE: &'static str = "abcdefghijklmnopqrstuvwxyz";

/// The uppercase letters.
pub const UPPERCASE: &'static str = "ABCDEFGHIJKLMNOPQRSTUVWXYZ";

/// The digits, in keyboard order.
pub const NUMBERS: &'static str = "1234567890";

/// The punctuation characters above the digits of a keyboard.
pub const SPECIAL_CHARACTERS: &'static str = "!@#$%^&*()";

/// One of the four character classes, in declaration order.
#[derive(Clone, Copy, Debug, PartialEq, Eq, Structural)]
pub enum CharacterClass {
    Lowercase,
    Uppercase,
    Digit,
    Special,
}

impl CharacterClass {
    /// The characters of the class, in their fixed order.
    pub open spec fn alphabet(self) -> Seq<char> {
        match self {
            CharacterClass::Lowercase => LOWERCASE@,
            CharacterClass::Uppercase => UPPERCASE@,
            CharacterClass::Digit => NUMBERS@,
            CharacterClass::Special => SPECIAL_CHARACTERS@,
        }
    }

    /// Whether `c` is one of the characters of the class.
    pub open spec fn holds(self, c: char) -> bool {
        match self {
            CharacterClass::Lowercase => 'a' <= c <= 'z',
            CharacterClass::Uppercase => 'A' <= c <= 'Z',
            CharacterClass::Digit => '0' <= c <= '9',
            CharacterClass::Special => c == '!' || c == '@' || c == '#' || c == '$' || c == '%'
                || c == '^' || c == '&' || c == '*' || c == '(' || c == ')',
        }
    }

    /// The characters of the class as a string slice.
    pub fn characters(self) -> (set: &'static str)
        ensures
            set@ == self.alphabet(),
    {
        match self {
            CharacterClass::Lowercase => LOWERCASE,
            CharacterClass::Uppercase => UPPERCASE,
            CharacterClass::Digit => NUMBERS,
            CharacterClass::Special => SPECIAL_CHARACTERS,
        }
    }
}

/// The class that `c` belongs to, if any. The classes are pairwise disjoint,
/// so trying them in declaration order finds the only one that can hold `c`.
pub open spec fn class_of(c: char) -> Option<CharacterClass> {
    if CharacterClass::Lowercase.holds(c) {
        Some(CharacterClass::Lowercase)
    } else if CharacterClass::Uppercase.holds(c) {
        Some(CharacterClass::Uppercase)
    } else if CharacterClass::Digit.holds(c) {
        Some(CharacterClass::Digit)
    } else if CharacterClass::Special.holds(c) {
        Some(CharacterClass::Special)
    } else {
        None
    }
}

/// Each class has its fixed number of characters, all of them ASCII, and a
/// character occurs in the class's alphabet exactly when the class holds it.
pub proof fn lemma_alphabet(class: CharacterClass)
    ensures
        class.alphabet().len() == match class {
            CharacterClass::Lowercase => 26nat,
            CharacterClass::Uppercase => 26nat,
            CharacterClass::Digit => 10nat,
            CharacterClass::Special => 10nat,
        },
        vstd::utf8::is_ascii_chars(class.alphabet()),
        forall|i: int| 0 <= i < class.alphabet().len() ==> class.holds(#[trigger] class.alphabet()[i]),
        forall|c: char| class.holds(c) ==> #[trigger] class.alphabet().contains(c),
{
    reveal_strlit("abcdefghijklmnopqrstuvwxyz");
    reveal_strlit("ABCDEFGHIJKLMNOPQRSTUVWXYZ");
    reveal_strlit("1234567890");
    reveal_strlit("!@#$%^&*()");
    let s = class.alphabet();
    assert forall|c: char| class.holds(c) implies #[trigger] s.contains(c) by {
        match class {
            CharacterClass::Lowercase => {
                assert(s[c as int - 'a' as int] == c);
            },
            CharacterClass::Uppercase => {
                assert(s[c as int - 'A' as int] == c);
            },
            CharacterClass::Digit => {
                assert(s[(c as int - '1' as int + 10) % 10] == c);
            },
            CharacterClass::Special => {
                assert(s[0] == '!' && s[1] == '@' && s[2] == '#' && s[3] == '$' && s[4] == '%');
                assert(s[5] == '^' && s[6] == '&' && s[7] == '*' && s[8] == '(' && s[9] == ')');
            },
        }
    }
}

/// Finds the class of a character: lowercase first, then uppercase, digits
/// and special characters; the first class that holds it wins.
pub fn classify(c: char) -> (class: Option<CharacterClass>)
    ensures
        class == class_of(c),
{
    if 'a' <= c && c <= 'z' {
        Some(CharacterClass::Lowercase)
    } else if 'A' <= c && c <= 'Z' {
        Some(CharacterClass::Uppercase)
    } else if '0' <= c && c <= '9' {
        Some(CharacterClass::Digit)
    } else if c == '!' || c == '@' || c == '#' || c == '$' || c == '%' || c == '^' || c == '&'
        || c == '*' || c == '(' || c == ')' {
        Some(CharacterClass::Special)
    } else {
        None
    }
}

} // verus!

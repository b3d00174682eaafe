//! What holds of every generated password, whatever the random source draws.

use crate::classes::{class_of, lemma_alphabet, CharacterClass, NUMBERS};
use crate::request::{contains_class, GeneratePassword};
use vstd::prelude::*;

verus! {

impl GeneratePassword {
    /// Whether `c` may occur in a password for this request: a digit if no
    /// class is selected, else a character of a selected class.
    pub open spec fn permits(self, c: char) -> bool {
        if self.default_set() {
            CharacterClass::Digit.holds(c)
        } else {
            match class_of(c) {
                Some(class) => self.wants(class),
                None => false,
            }
        }
    }

    /// What every generated password looks like: it has the target length,
    /// consists of permitted characters, and its first characters, as many
    /// as there are selected classes, hold one character of each of them.
    pub open spec fn is_outcome(self, password: Seq<char>) -> bool {
        &&& password.len() == self.target_length()
        &&& forall|i: int| 0 <= i < password.len() ==> self.permits(#[trigger] password[i])
        &&& forall|class: CharacterClass|
            self.wants(class) ==> #[trigger] contains_class(
                password.take(self.guarantees().len() as int),
                class,
            )
    }
}

/// The alphabet of a request is not empty, is ASCII, and holds exactly the
/// characters that the request permits.
pub proof fn lemma_allowed(request: GeneratePassword)
    ensures
        0 < request.allowed().len() <= 72,
        vstd::utf8::is_ascii_chars(request.allowed()),
        forall|c: char| request.allowed().contains(c) <==> request.permits(c),
{
    lemma_alphabet(CharacterClass::Lowercase);
    lemma_alphabet(CharacterClass::Uppercase);
    lemma_alphabet(CharacterClass::Digit);
    lemma_alphabet(CharacterClass::Special);
    let lower = if request.lowercase { CharacterClass::Lowercase.alphabet() } else { Seq::empty() };
    let upper = if request.uppercase { CharacterClass::Uppercase.alphabet() } else { Seq::empty() };
    let digit = if request.numbers { CharacterClass::Digit.alphabet() } else { Seq::empty() };
    let special = if request.special_characters {
        CharacterClass::Special.alphabet()
    } else {
        Seq::empty()
    };
    let all = request.allowed();
    if !request.default_set() {
        assert(all == lower + upper + digit + special);
    }
    assert forall|c: char| all.contains(c) implies request.permits(c) by {
        let i = choose|i: int| 0 <= i < all.len() && all[i] == c;
        if !request.default_set() {
            if i < lower.len() {
                assert(c == lower[i]);
            } else if i < lower.len() + upper.len() {
                assert(c == upper[i - lower.len()]);
            } else if i < lower.len() + upper.len() + digit.len() {
                assert(c == digit[i - lower.len() - upper.len()]);
            } else {
                assert(c == special[i - lower.len() - upper.len() - digit.len()]);
            }
        }
    }
    assert forall|c: char| request.permits(c) implies all.contains(c) by {
        if request.default_set() {
            assert(CharacterClass::Digit.alphabet().contains(c));
        } else {
            let class = class_of(c)->0;
            assert(class.holds(c));
            assert(class.alphabet().contains(c));
            let j = choose|j: int| 0 <= j < class.alphabet().len() && class.alphabet()[j] == c;
            match class {
                CharacterClass::Lowercase => {
                    assert(all[j] == c);
                },
                CharacterClass::Uppercase => {
                    assert(all[lower.len() + j] == c);
                },
                CharacterClass::Digit => {
                    assert(all[lower.len() + upper.len() + j] == c);
                },
                CharacterClass::Special => {
                    assert(all[lower.len() + upper.len() + digit.len() + j] == c);
                },
            }
        }
    }
}

/// The guarantee list names each selected class once and no other class.
pub proof fn lemma_guarantees(request: GeneratePassword)
    ensures
        request.guarantees().len() <= 4,
        request.guarantees().len() == 0 <==> request.default_set(),
        request.guarantees().no_duplicates(),
        forall|class: CharacterClass|
            #[trigger] request.guarantees().contains(class) <==> request.wants(class),
{
    let lower: Seq<CharacterClass> = if request.lowercase {
        seq![CharacterClass::Lowercase]
    } else {
        Seq::empty()
    };
    let upper: Seq<CharacterClass> = if request.uppercase {
        seq![CharacterClass::Uppercase]
    } else {
        Seq::empty()
    };
    let digit: Seq<CharacterClass> = if request.numbers {
        seq![CharacterClass::Digit]
    } else {
        Seq::empty()
    };
    let special: Seq<CharacterClass> = if request.special_characters {
        seq![CharacterClass::Special]
    } else {
        Seq::empty()
    };
    let list = request.guarantees();
    assert(list == lower + upper + digit + special);
    assert forall|class: CharacterClass| request.wants(class) implies #[trigger] list.contains(
        class,
    ) by {
        match class {
            CharacterClass::Lowercase => {
                assert(list[0] == class);
            },
            CharacterClass::Uppercase => {
                assert(list[lower.len() as int] == class);
            },
            CharacterClass::Digit => {
                assert(list[(lower.len() + upper.len()) as int] == class);
            },
            CharacterClass::Special => {
                assert(list[(lower.len() + upper.len() + digit.len()) as int] == class);
            },
        }
    }
}

/// Every password of the shape that generation produces is valid, so no
/// candidate is ever thrown away.
pub proof fn lemma_outcome_accepted(request: GeneratePassword, password: Seq<char>)
    requires
        request.is_outcome(password),
    ensures
        request.accepts(password),
{
    if !request.default_set() {
        let k = request.guarantees().len() as int;
        assert forall|class: CharacterClass|
            #[trigger] contains_class(password, class) == request.wants(class) by {
            if request.wants(class) {
                let front = password.take(k);
                assert(contains_class(front, class));
                let i = choose|i: int|
                    0 <= i < front.len() && class_of(#[trigger] front[i]) == Some(class);
                assert(password[i] == front[i]);
            }
            if contains_class(password, class) {
                let i = choose|i: int|
                    0 <= i < password.len() && class_of(#[trigger] password[i]) == Some(class);
                assert(request.permits(password[i]));
            }
        }
    }
}

/// A request for fewer than four characters gives exactly four.
pub proof fn lemma_length_floor(request: GeneratePassword, password: Seq<char>)
    requires
        request.is_outcome(password),
        request.length < 4,
    ensures
        password.len() == 4,
{
}

/// A request for four characters or more gives exactly as many.
pub proof fn lemma_length_kept(request: GeneratePassword, password: Seq<char>)
    requires
        request.is_outcome(password),
        request.length >= 4,
    ensures
        password.len() == request.length,
{
}

/// With no class selected every character of the password is a digit.
pub proof fn lemma_digits_by_default(request: GeneratePassword, password: Seq<char>)
    requires
        request.is_outcome(password),
        request.default_set(),
    ensures
        forall|i: int| 0 <= i < password.len() ==> NUMBERS@.contains(#[trigger] password[i]),
{
    lemma_allowed(request);
    assert forall|i: int| 0 <= i < password.len() implies NUMBERS@.contains(
        #[trigger] password[i],
    ) by {
        assert(request.permits(password[i]));
    }
}

/// With one class selected and no other, every character of the password is
/// of that class's alphabet, and the password is not empty.
pub proof fn lemma_single_class(
    request: GeneratePassword,
    class: CharacterClass,
    password: Seq<char>,
)
    requires
        request.is_outcome(password),
        forall|other: CharacterClass| request.wants(other) <==> other == class,
    ensures
        password.len() > 0,
        forall|i: int|
            0 <= i < password.len() ==> class.alphabet().contains(#[trigger] password[i]),
{
    assert(request.wants(class));
    lemma_alphabet(class);
    assert forall|i: int| 0 <= i < password.len() implies class.alphabet().contains(
        #[trigger] password[i],
    ) by {
        let c = password[i];
        assert(request.permits(c));
        assert(request.wants(class_of(c)->0));
        assert(class.holds(c));
    }
}

/// Whether `c` is of the alphabet of a class that the request selects.
pub open spec fn of_selected_class(request: GeneratePassword, c: char) -> bool {
    exists|class: CharacterClass| request.wants(class) && #[trigger] class.alphabet().contains(c)
}

/// Every selected class contributes a character of its alphabet, and every
/// character of the password is of the alphabet of a selected class.
pub proof fn lemma_selected_classes(request: GeneratePassword, password: Seq<char>)
    requires
        request.is_outcome(password),
        !request.default_set(),
    ensures
        forall|class: CharacterClass|
            request.wants(class) ==> exists|i: int|
                0 <= i < password.len() && #[trigger] class.alphabet().contains(password[i]),
        forall|i: int|
            0 <= i < password.len() ==> of_selected_class(request, #[trigger] password[i]),
{
    lemma_outcome_accepted(request, password);
    assert forall|class: CharacterClass| request.wants(class) implies exists|i: int|
        0 <= i < password.len() && #[trigger] class.alphabet().contains(password[i]) by {
        lemma_alphabet(class);
        assert(contains_class(password, class));
        let i = choose|i: int|
            0 <= i < password.len() && class_of(#[trigger] password[i]) == Some(class);
        assert(class.holds(password[i]));
        assert(class.alphabet().contains(password[i]));
    }
    assert forall|i: int| 0 <= i < password.len() implies of_selected_class(
        request,
        #[trigger] password[i],
    ) by {
        let c = password[i];
        assert(request.permits(c));
        let class = class_of(c)->0;
        lemma_alphabet(class);
        assert(class.holds(c));
        assert(class.alphabet().contains(c));
    }
}

/// With all four classes selected and at most four characters asked for,
/// the password is the four guaranteed characters alone: one of each class,
/// no two of the same class.
pub proof fn lemma_four_of_four(request: GeneratePassword, password: Seq<char>)
    requires
        request.is_outcome(password),
        request.lowercase && request.uppercase && request.numbers && request.special_characters,
        request.length <= 4,
    ensures
        password.len() == 4,
        request.accepts(password),
        forall|i: int, j: int|
            0 <= i < j < 4 ==> class_of(#[trigger] password[i]) != class_of(#[trigger] password[j]),
{
    lemma_outcome_accepted(request, password);
    lemma_guarantees(request);
    assert(request.guarantees().len() == 4) by {
        assert(request.guarantees() =~= seq![
            CharacterClass::Lowercase,
            CharacterClass::Uppercase,
            CharacterClass::Digit,
            CharacterClass::Special,
        ]);
    }
    assert(password.take(4) =~= password);
    let a = choose|i: int|
        0 <= i < 4 && class_of(#[trigger] password[i]) == Some(CharacterClass::Lowercase);
    let b = choose|i: int|
        0 <= i < 4 && class_of(#[trigger] password[i]) == Some(CharacterClass::Uppercase);
    let c = choose|i: int|
        0 <= i < 4 && class_of(#[trigger] password[i]) == Some(CharacterClass::Digit);
    let d = choose|i: int|
        0 <= i < 4 && class_of(#[trigger] password[i]) == Some(CharacterClass::Special);
    assert(request.wants(CharacterClass::Lowercase) && request.wants(CharacterClass::Uppercase)
        && request.wants(CharacterClass::Digit) && request.wants(CharacterClass::Special));
    assert(contains_class(password, CharacterClass::Lowercase));
    assert(contains_class(password, CharacterClass::Uppercase));
    assert(contains_class(password, CharacterClass::Digit));
    assert(contains_class(password, CharacterClass::Special));
}

} // verus!

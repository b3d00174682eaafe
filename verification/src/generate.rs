//! Generating a password: one character of every selected class first, in a
//! random order of the classes, then random characters of the whole alphabet.

use crate::classes::{class_of, lemma_alphabet, CharacterClass};
use crate::outcome::{lemma_allowed, lemma_guarantees, lemma_outcome_accepted};
use crate::random::random_below;
use crate::request::{contains_class, lemma_contains_class_push, GeneratePassword};
use rand::thread_rng;
use vstd::prelude::*;
use vstd::string::*;

verus! {

/// Appends to `password` the character that `set` has at `index`.
pub fn push_pick(password: &mut String, set: &str, index: usize)
    requires
        set.is_ascii(),
        index < set@.len(),
        index < usize::MAX,
    ensures
        final(password)@ == old(password)@.push(set@[index as int]),
{
    let picked = set.substring_ascii(index, index + 1);
    assert(picked@ =~= seq![set@[index as int]]);
    password.append(picked);
    assert(password@ =~= old(password)@.push(set@[index as int]));
}

impl GeneratePassword {
    /// Makes one candidate from fresh random draws. `wanted` is the alphabet
    /// of the request.
    fn attempt(&self, wanted: &str) -> (password: String)
        requires
            wanted@ == self.allowed(),
        ensures
            self.is_outcome(password@),
    {
        let ghost count = self.guarantees().len();
        let mut password = String::new();
        let mut password_length: u8 = self.effective_length();
        let mut rng = thread_rng();
        let mut guaranteed_loop = self.guaranteed();
        proof {
            lemma_guarantees(*self);
        }

        // One character of every selected class, the classes in random order.
        while guaranteed_loop.len() > 0
            invariant
                count == self.guarantees().len(),
                count <= 4,
                guaranteed_loop.len() + password@.len() == count,
                password_length + password@.len() == self.target_length(),
                forall|j: int|
                    0 <= j < guaranteed_loop.len() ==> self.wants(#[trigger] guaranteed_loop[j]),
                forall|i: int| 0 <= i < password@.len() ==> self.permits(#[trigger] password@[i]),
                forall|class: CharacterClass|
                    self.wants(class) ==> guaranteed_loop@.contains(class) || #[trigger] contains_class(
                        password@,
                        class,
                    ),
            decreases guaranteed_loop.len(),
        {
            let ghost before = guaranteed_loop@;
            let ghost front = password@;
            let rand_set = random_below(&mut rng, guaranteed_loop.len());
            let set = guaranteed_loop.remove(rand_set);
            let guaranteed_set = set.characters();
            proof {
                lemma_alphabet(set);
            }
            let random = random_below(&mut rng, guaranteed_set.unicode_len());
            push_pick(&mut password, guaranteed_set, random);
            password_length = password_length - 1;
            proof {
                let c = guaranteed_set@[random as int];
                assert(set.holds(c));
                assert(class_of(c) == Some(set));
                assert(self.wants(before[rand_set as int]));
                assert forall|class: CharacterClass| self.wants(class) implies guaranteed_loop@.contains(
                    class,
                ) || #[trigger] contains_class(password@, class) by {
                    lemma_contains_class_push(front, c, class);
                    if class != set && !contains_class(front, class) {
                        let j = choose|j: int| 0 <= j < before.len() && before[j] == class;
                        if j < rand_set {
                            assert(guaranteed_loop@[j] == class);
                        } else {
                            assert(guaranteed_loop@[j - 1] == class);
                        }
                    }
                }
            }
        }

        let ghost front = password@;
        proof {
            lemma_allowed(*self);
            assert(password@.take(count as int) =~= front);
        }
        let choices = wanted.unicode_len();

        // The rest comes from the whole alphabet.
        while password_length > 0
            invariant
                wanted@ == self.allowed(),
                wanted.is_ascii(),
                choices == wanted@.len(),
                0 < choices <= 72,
                forall|c: char| self.allowed().contains(c) ==> self.permits(c),
                front.len() == count,
                count <= password@.len(),
                password@.take(count as int) == front,
                password_length + password@.len() == self.target_length(),
                forall|i: int| 0 <= i < password@.len() ==> self.permits(#[trigger] password@[i]),
            decreases password_length,
        {
            let random = random_below(&mut rng, choices);
            let ghost shorter = password@;
            push_pick(&mut password, wanted, random);
            password_length = password_length - 1;
            proof {
                assert(self.allowed().contains(wanted@[random as int]));
                assert(password@.take(count as int) =~= shorter.take(count as int));
            }
        }
        password
    }

    /// Generates a password for the request.
    ///
    /// Candidates are made until one is valid. The first one always is,
    /// whatever the random source draws.
    pub fn generate(&self) -> (password: String)
        ensures
            self.is_outcome(password@),
            self.accepts(password@),
    {
        let wanted_characters = self.wanted_characters();
        let mut complete: bool = false;
        let mut password = String::new();
        while !complete
            invariant
                wanted_characters@ == self.allowed(),
                complete ==> self.is_outcome(password@) && self.accepts(password@),
            decreases (if complete { 0nat } else { 1nat }),
        {
            password = self.attempt(wanted_characters.as_str());
            proof {
                lemma_outcome_accepted(*self, password@);
            }
            complete = self.is_complete(password.as_str());
        }
        password
    }
}

} // verus!

use passgen::{
    classify, push_pick, CharacterClass, ClassesFound, GeneratePassword, LOWERCASE,
    MINIMUM_LENGTH, NUMBERS, SPECIAL_CHARACTERS, UPPERCASE,
};

fn request(length: u8, flags: u8) -> GeneratePassword {
    GeneratePassword {
        length,
        lowercase: flags & 1 != 0,
        uppercase: flags & 2 != 0,
        numbers: flags & 4 != 0,
        special_characters: flags & 8 != 0,
    }
}

fn found(lowercase: bool, uppercase: bool, numbers: bool, special_characters: bool) -> ClassesFound {
    ClassesFound { lowercase, uppercase, numbers, special_characters }
}

#[test]
fn default_request_is_four_characters_and_no_class() {
    let request = GeneratePassword::default();
    assert_eq!(request.length, 4);
    assert!(!request.lowercase);
    assert!(!request.uppercase);
    assert!(!request.numbers);
    assert!(!request.special_characters);
    assert!(request.is_default_set());
}

#[test]
fn class_alphabets_are_the_fixed_strings() {
    assert_eq!(CharacterClass::Lowercase.characters(), "abcdefghijklmnopqrstuvwxyz");
    assert_eq!(CharacterClass::Uppercase.characters(), "ABCDEFGHIJKLMNOPQRSTUVWXYZ");
    assert_eq!(CharacterClass::Digit.characters(), "1234567890");
    assert_eq!(CharacterClass::Special.characters(), "!@#$%^&*()");
    assert_eq!(LOWERCASE.len(), 26);
    assert_eq!(UPPERCASE.len(), 26);
    assert_eq!(NUMBERS.len(), 10);
    assert_eq!(SPECIAL_CHARACTERS.len(), 10);
}

#[test]
fn classify_agrees_with_the_alphabets() {
    for code in 0u32..0x250 {
        let c = char::from_u32(code).unwrap();
        let expected = if LOWERCASE.contains(c) {
            Some(CharacterClass::Lowercase)
        } else if UPPERCASE.contains(c) {
            Some(CharacterClass::Uppercase)
        } else if NUMBERS.contains(c) {
            Some(CharacterClass::Digit)
        } else if SPECIAL_CHARACTERS.contains(c) {
            Some(CharacterClass::Special)
        } else {
            None
        };
        assert_eq!(classify(c), expected);
    }
}

#[test]
fn classify_edges_of_the_classes() {
    assert_eq!(classify('a'), Some(CharacterClass::Lowercase));
    assert_eq!(classify('z'), Some(CharacterClass::Lowercase));
    assert_eq!(classify('A'), Some(CharacterClass::Uppercase));
    assert_eq!(classify('Z'), Some(CharacterClass::Uppercase));
    assert_eq!(classify('0'), Some(CharacterClass::Digit));
    assert_eq!(classify('9'), Some(CharacterClass::Digit));
    assert_eq!(classify('!'), Some(CharacterClass::Special));
    assert_eq!(classify(')'), Some(CharacterClass::Special));
    assert_eq!(classify('`'), None);
    assert_eq!(classify('{'), None);
    assert_eq!(classify('['), None);
    assert_eq!(classify('/'), None);
    assert_eq!(classify(':'), None);
    assert_eq!(classify('+'), None);
    assert_eq!(classify(' '), None);
    assert_eq!(classify('\u{e9}'), None);
}

#[test]
fn effective_length_has_a_floor_of_four() {
    assert_eq!(MINIMUM_LENGTH, 4);
    assert_eq!(request(0, 0).effective_length(), 4);
    assert_eq!(request(3, 15).effective_length(), 4);
    assert_eq!(request(4, 1).effective_length(), 4);
    assert_eq!(request(5, 2).effective_length(), 5);
    assert_eq!(request(255, 8).effective_length(), 255);
}

#[test]
fn guarantee_list_is_in_declaration_order() {
    assert_eq!(request(9, 0).guaranteed(), vec![]);
    assert_eq!(request(9, 1).guaranteed(), vec![CharacterClass::Lowercase]);
    assert_eq!(request(9, 8).guaranteed(), vec![CharacterClass::Special]);
    assert_eq!(
        request(9, 6).guaranteed(),
        vec![CharacterClass::Uppercase, CharacterClass::Digit]
    );
    assert_eq!(
        request(9, 15).guaranteed(),
        vec![
            CharacterClass::Lowercase,
            CharacterClass::Uppercase,
            CharacterClass::Digit,
            CharacterClass::Special
        ]
    );
}

#[test]
fn alphabet_concatenates_the_selected_classes() {
    assert_eq!(request(9, 0).wanted_characters(), "1234567890");
    assert_eq!(request(9, 4).wanted_characters(), "1234567890");
    assert_eq!(request(9, 1).wanted_characters(), "abcdefghijklmnopqrstuvwxyz");
    assert_eq!(
        request(9, 10).wanted_characters(),
        "ABCDEFGHIJKLMNOPQRSTUVWXYZ!@#$%^&*()"
    );
    assert_eq!(
        request(9, 15).wanted_characters(),
        "abcdefghijklmnopqrstuvwxyzABCDEFGHIJKLMNOPQRSTUVWXYZ1234567890!@#$%^&*()"
    );
    assert_eq!(request(9, 15).wanted_characters().len(), 72);
}

#[test]
fn push_pick_appends_the_indexed_character() {
    let mut password = String::new();
    push_pick(&mut password, NUMBERS, 3);
    assert_eq!(password, "4");
    push_pick(&mut password, NUMBERS, 9);
    assert_eq!(password, "40");
    push_pick(&mut password, LOWERCASE, 0);
    push_pick(&mut password, UPPERCASE, 25);
    push_pick(&mut password, SPECIAL_CHARACTERS, 5);
    assert_eq!(password, "40aZ^");
}

#[test]
fn scan_records_the_classes_that_occur() {
    assert_eq!(ClassesFound::scan(""), found(false, false, false, false));
    assert_eq!(ClassesFound::scan("abc"), found(true, false, false, false));
    assert_eq!(ClassesFound::scan("Q"), found(false, true, false, false));
    assert_eq!(ClassesFound::scan("2024"), found(false, false, true, false));
    assert_eq!(ClassesFound::scan("(*)"), found(false, false, false, true));
    assert_eq!(ClassesFound::scan("aA1!"), found(true, true, true, true));
    assert_eq!(ClassesFound::scan("zzz9zzz"), found(true, false, true, false));
    assert_eq!(ClassesFound::scan(" ~\u{e9}+"), found(false, false, false, false));
    assert_eq!(ClassesFound::scan("\u{e9}x\u{4e2d}"), found(true, false, false, false));
}

#[test]
fn validation_wants_exactly_the_selected_classes() {
    let lower_and_digits = request(4, 5);
    assert!(lower_and_digits.is_complete("abc1"));
    assert!(lower_and_digits.is_complete("1a"));
    assert!(!lower_and_digits.is_complete("abc"));
    assert!(!lower_and_digits.is_complete("123"));
    assert!(!lower_and_digits.is_complete("abC1"));
    assert!(!lower_and_digits.is_complete("ab1!"));
    assert!(!lower_and_digits.is_complete(""));
    let all = request(4, 15);
    assert!(all.is_complete("aA1!"));
    assert!(all.is_complete("!1Aa"));
    assert!(!all.is_complete("aA1a"));
    let special = request(4, 8);
    assert!(special.is_complete("(((("));
    assert!(!special.is_complete("(((1"));
}

#[test]
fn validation_is_skipped_when_no_class_is_selected() {
    let nothing = request(4, 0);
    assert!(nothing.is_complete("1234"));
    assert!(nothing.is_complete("abcd"));
    assert!(nothing.is_complete(""));
    assert!(nothing.is_complete("aA1!"));
}

#[test]
fn short_requests_give_four_characters() {
    for flags in 0u8..16 {
        for length in 0u8..4 {
            let password = request(length, flags).generate();
            assert_eq!(password.chars().count(), 4);
            assert_eq!(password.len(), 4);
        }
    }
}

#[test]
fn longer_requests_give_the_requested_length() {
    for flags in 0u8..16 {
        for length in [4u8, 5, 6, 17, 60, 128, 254, 255] {
            let password = request(length, flags).generate();
            assert_eq!(password.len(), length as usize);
        }
    }
}

#[test]
fn no_class_selected_gives_digits() {
    for length in [0u8, 3, 4, 9, 60, 255] {
        let password = request(length, 0).generate();
        for c in password.chars() {
            assert!(NUMBERS.contains(c));
        }
    }
}

#[test]
fn one_class_selected_gives_only_that_class() {
    let classes = [
        (1u8, LOWERCASE),
        (2u8, UPPERCASE),
        (4u8, NUMBERS),
        (8u8, SPECIAL_CHARACTERS),
    ];
    for (flag, alphabet) in classes {
        for length in [0u8, 4, 5, 60, 255] {
            let password = request(length, flag).generate();
            assert!(!password.is_empty());
            for c in password.chars() {
                assert!(alphabet.contains(c));
            }
        }
    }
}

#[test]
fn every_selected_class_occurs_and_no_other() {
    for flags in 1u8..16 {
        for length in [0u8, 1, 4, 5, 8, 60, 255] {
            for _ in 0..20 {
                let asked = request(length, flags);
                let password = asked.generate();
                let seen = ClassesFound::scan(&password);
                assert_eq!(
                    seen,
                    found(asked.lowercase, asked.uppercase, asked.numbers, asked.special_characters)
                );
                for c in password.chars() {
                    assert!(classify(c).is_some());
                }
                assert!(asked.is_complete(&password));
            }
        }
    }
}

#[test]
fn guaranteed_characters_come_first() {
    for flags in 1u8..16 {
        let asked = request(40, flags);
        let count = asked.guaranteed().len();
        for _ in 0..50 {
            let password = asked.generate();
            let front: String = password.chars().take(count).collect();
            assert_eq!(
                ClassesFound::scan(&front),
                found(asked.lowercase, asked.uppercase, asked.numbers, asked.special_characters)
            );
        }
    }
}

#[test]
fn four_of_four_is_one_character_of_each_class() {
    for length in 0u8..5 {
        for _ in 0..200 {
            let password = request(length, 15).generate();
            assert_eq!(password.len(), 4);
            let mut classes: Vec<CharacterClass> = Vec::new();
            for c in password.chars() {
                let class = classify(c).unwrap();
                assert!(!classes.contains(&class));
                classes.push(class);
            }
            assert_eq!(classes.len(), 4);
            assert!(request(length, 15).is_complete(&password));
        }
    }
}

#[test]
fn every_order_of_two_classes_comes_up() {
    let asked = request(4, 3);
    let mut lower_first = false;
    let mut upper_first = false;
    for _ in 0..400 {
        let password = asked.generate();
        match classify(password.chars().next().unwrap()) {
            Some(CharacterClass::Lowercase) => lower_first = true,
            Some(CharacterClass::Uppercase) => upper_first = true,
            other => panic!("unexpected class {:?}", other),
        }
    }
    assert!(lower_first && upper_first);
}

#[test]
fn scenario_sixty_lowercase_and_numbers() {
    let password = GeneratePassword {
        length: 60,
        lowercase: true,
        numbers: true,
        ..GeneratePassword::default()
    }
    .generate();
    assert_eq!(password.len(), 60);
    assert_eq!(ClassesFound::scan(&password), found(true, false, true, false));
    assert!(password.chars().all(|c| LOWERCASE.contains(c) || NUMBERS.contains(c)));
}

#[test]
fn scenario_three_with_no_class() {
    let password = GeneratePassword { length: 3, ..GeneratePassword::default() }.generate();
    assert_eq!(password.len(), 4);
    assert!(password.chars().all(|c| "1234567890".contains(c)));
}

#[test]
fn scenario_sixty_with_all_classes() {
    let password = request(60, 15).generate();
    assert_eq!(password.len(), 60);
    assert_eq!(ClassesFound::scan(&password), found(true, true, true, true));
    assert!(password.chars().all(|c| {
        LOWERCASE.contains(c)
            || UPPERCASE.contains(c)
            || NUMBERS.contains(c)
            || SPECIAL_CHARACTERS.contains(c)
    }));
}

#[test]
fn long_passwords_differ_from_call_to_call() {
    let asked = request(64, 15);
    let first = asked.generate();
    let second = asked.generate();
    let third = asked.generate();
    assert_ne!(first, second);
    assert_ne!(second, third);
    assert_ne!(first, third);
}

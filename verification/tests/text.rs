use mentat_cli::text::{begins_with, count_leading_spaces, split_tokens, to_chars, word_end};

#[test]
fn to_chars_gives_characters_not_bytes() {
    assert_eq!(to_chars(""), Vec::<char>::new());
    assert_eq!(to_chars("a.b"), vec!['a', '.', 'b']);
    assert_eq!(to_chars("é日"), vec!['é', '日']);
}

#[test]
fn leading_spaces_are_counted_up_to_the_first_other_character() {
    assert_eq!(count_leading_spaces(&to_chars("")), 0);
    assert_eq!(count_leading_spaces(&to_chars("abc ")), 0);
    assert_eq!(count_leading_spaces(&to_chars("  \t\n.x ")), 4);
    assert_eq!(count_leading_spaces(&to_chars(" \u{3000}\u{A0}")), 3);
    assert_eq!(count_leading_spaces(&to_chars(" \u{200B} ")), 1);
}

#[test]
fn word_end_is_the_next_white_space_or_the_end() {
    let chars = to_chars("ab cd");
    assert_eq!(word_end(&chars, 0), 2);
    assert_eq!(word_end(&chars, 1), 2);
    assert_eq!(word_end(&chars, 2), 2);
    assert_eq!(word_end(&chars, 3), 5);
    assert_eq!(word_end(&chars, 5), 5);
    assert_eq!(word_end(&chars, 9), 9);
}

#[test]
fn begins_with_compares_from_the_start() {
    assert!(begins_with(&to_chars("help me"), &to_chars("help")));
    assert!(begins_with(&to_chars("help"), &to_chars("help")));
    assert!(begins_with(&to_chars("help"), &to_chars("")));
    assert!(!begins_with(&to_chars("hel"), &to_chars("help")));
    assert!(!begins_with(&to_chars("helm"), &to_chars("help")));
    assert!(!begins_with(&to_chars(" help"), &to_chars("help")));
}

#[test]
fn split_tokens_gives_the_maximal_runs() {
    assert_eq!(split_tokens(""), Vec::<String>::new());
    assert_eq!(split_tokens(" \t \n"), Vec::<String>::new());
    assert_eq!(split_tokens("one"), vec!["one"]);
    assert_eq!(split_tokens("  one  two\tthree "), vec!["one", "two", "three"]);
    assert_eq!(split_tokens("a a .b /c/d"), vec!["a", "a", ".b", "/c/d"]);
    assert_eq!(split_tokens("é\u{3000}日本"), vec!["é", "日本"]);
}

#[test]
fn split_tokens_of_two_parts_set_apart() {
    let a = " x y ";
    let b = "z  w";
    let mut both = split_tokens(a);
    both.extend(split_tokens(b));
    assert_eq!(split_tokens(&format!("{}{}", a, b)), both);
}

#[test]
fn white_space_is_exactly_the_listed_code_points() {
    let listed = |n: u32| {
        (0x09..=0x0D).contains(&n)
            || n == 0x20
            || n == 0x85
            || n == 0xA0
            || n == 0x1680
            || (0x2000..=0x200A).contains(&n)
            || n == 0x2028
            || n == 0x2029
            || n == 0x202F
            || n == 0x205F
            || n == 0x3000
    };
    let mut found = 0;
    for n in 0..=0x10FFFF_u32 {
        if let Some(c) = char::from_u32(n) {
            let spaces = count_leading_spaces(&[c]);
            assert_eq!(spaces == 1, listed(n), "code point {:#x}", n);
            assert_eq!(word_end(&[c], 0), 1 - spaces);
            found += spaces;
        }
    }
    assert_eq!(found, 25);
}

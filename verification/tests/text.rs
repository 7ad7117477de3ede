use deskcalc::text::{
    char_is_space, char_lower,
    chars_of, check_decimal, find_char, normalize, parse_index, scan_run,
    split_arguments, split_components, subtext, text_of, CharClass,
};

fn chars(s: &str) -> Vec<char> {
    s.chars().collect()
}

fn strings(pieces: Vec<Vec<char>>) -> Vec<String> {
    pieces.iter().map(|p| p.iter().collect()).collect()
}

#[test]
fn strings_to_characters_and_back() {
    assert_eq!(chars_of("a+β"), vec!['a', '+', 'β']);
    assert_eq!(chars_of(""), Vec::<char>::new());
    assert_eq!(text_of(&vec!['a', '+', 'β']), "a+β");
    assert_eq!(text_of(&Vec::new()), "");
}

#[test]
fn normalize_strips_and_lowers() {
    assert_eq!(normalize(" 1 +\tPi\n"), chars("1+pi"));
    assert_eq!(normalize("#Var = 2"), chars("#var=2"));
    assert_eq!(normalize("\u{a0}\u{2003}\u{3000}"), chars(""));
    assert_eq!(normalize("ÀZ@[`{"), chars("Àz@[`{"));
    assert_eq!(normalize(""), chars(""));
}

#[test]
fn classes_of_characters() {
    assert!(CharClass::Digit.test('0') && CharClass::Digit.test('9'));
    assert!(!CharClass::Digit.test('.') && !CharClass::Digit.test('a'));
    assert!(!CharClass::Digit.test('/') && !CharClass::Digit.test(':'));
    assert!(CharClass::DigitOrPoint.test('.') && CharClass::DigitOrPoint.test('5'));
    assert!(!CharClass::DigitOrPoint.test(','));
    assert!(CharClass::Letter.test('a') && CharClass::Letter.test('Z'));
    assert!(!CharClass::Letter.test('1') && !CharClass::Letter.test('é'));
    assert!(!CharClass::Letter.test('@') && !CharClass::Letter.test('['));
    assert!(!CharClass::Letter.test('`') && !CharClass::Letter.test('{'));
}

#[test]
fn runs_end_at_the_first_character_outside() {
    let s = chars("123.5+abc");
    assert_eq!(scan_run(&s, 0, CharClass::Digit), 3);
    assert_eq!(scan_run(&s, 0, CharClass::DigitOrPoint), 5);
    assert_eq!(scan_run(&s, 1, CharClass::DigitOrPoint), 5);
    assert_eq!(scan_run(&s, 5, CharClass::DigitOrPoint), 5);
    assert_eq!(scan_run(&s, 6, CharClass::Letter), 9);
    assert_eq!(scan_run(&s, 9, CharClass::Letter), 9);
    assert_eq!(scan_run(&s, 0, CharClass::Letter), 0);
}

#[test]
fn finding_a_character() {
    let s = chars("(1+2)*(3)");
    assert_eq!(find_char(&s, 0, ')'), 4);
    assert_eq!(find_char(&s, 4, ')'), 4);
    assert_eq!(find_char(&s, 5, ')'), 8);
    assert_eq!(find_char(&s, 9, ')'), 9);
    assert_eq!(find_char(&s, 0, ']'), 9);
}

#[test]
fn a_stretch_of_a_text() {
    let s = chars("hello");
    assert_eq!(subtext(&s, 1, 4), chars("ell"));
    assert_eq!(subtext(&s, 0, 5), s);
    assert_eq!(subtext(&s, 5, 5), chars(""));
}

#[test]
fn what_is_a_decimal_literal() {
    for text in ["5", "5.", ".5", "5.5", "0012.3400", "12345678901234567890"] {
        assert!(check_decimal(&chars(text)), "{text}");
        assert!(text.parse::<f64>().is_ok(), "{text}");
    }
    for text in ["", ".", "..", "1.2.3", "1..", "..1"] {
        assert!(!check_decimal(&chars(text)), "{text}");
        assert!(text.parse::<f64>().is_err(), "{text}");
    }
    for text in ["1e5", "-1", "+1", "1,2", "inf", "nan", "1 "] {
        assert!(!check_decimal(&chars(text)), "{text}");
    }
}

#[test]
fn what_is_an_index() {
    let cases = [
        "0", "7", "10", "007", "+3", "+", "", "-1", "1a", "a", "+-1", "++1", "1.", " 1",
        "18446744073709551615", "18446744073709551616", "99999999999999999999999",
        "4294967295", "4294967296",
    ];
    for text in cases {
        assert_eq!(parse_index(&chars(text)), text.parse::<usize>().ok(), "{text}");
    }
    assert_eq!(parse_index(&chars("42")), Some(42));
    assert_eq!(parse_index(&chars("+42")), Some(42));
    assert_eq!(parse_index(&chars("4x")), None);
}

#[test]
fn components_are_cut_at_commas() {
    assert_eq!(strings(split_components(&chars("1,2,3"))), ["1", "2", "3"]);
    assert_eq!(strings(split_components(&chars(""))), [""]);
    assert_eq!(strings(split_components(&chars(","))), ["", ""]);
    assert_eq!(strings(split_components(&chars("1,"))), ["1", ""]);
    assert_eq!(strings(split_components(&chars("1,[2,3"))), ["1", "[2,3"]);
    assert_eq!(strings(split_components(&chars("a(1,2),3"))), ["a(1", "2)", "3"]);
}

#[test]
fn arguments_are_cut_at_commas() {
    assert_eq!(strings(split_arguments(&chars("(1,2"))), ["(1", "2"]);
    assert!(split_arguments(&chars("")).is_empty());
    assert_eq!(strings(split_arguments(&chars("(1,"))), ["(1"]);
    assert_eq!(strings(split_arguments(&chars(",1"))), [",1"]);
    assert_eq!(strings(split_arguments(&chars("(1,,2"))), ["(1", ",2"]);
    assert_eq!(strings(split_arguments(&chars(",,"))), [","]);
    assert_eq!(strings(split_arguments(&chars(",,,"))), [",", ","]);
    assert_eq!(strings(split_arguments(&chars("([1,2],3"))), ["([1,2]", "3"]);
    assert_eq!(strings(split_arguments(&chars("(1,[2,3],4"))), ["(1", "[2,3]", "4"]);
    assert_eq!(strings(split_arguments(&chars("[[1,2],3],4"))), ["[[1,2],3]", "4"]);
    assert_eq!(strings(split_arguments(&chars("1],2"))), ["1]", "2"]);
}

fn words(alphabet: &[char], longest: usize) -> Vec<String> {
    let mut all = vec![String::new()];
    let mut last = vec![String::new()];
    for _ in 0..longest {
        let mut next = Vec::new();
        for word in &last {
            for c in alphabet {
                let mut longer = word.clone();
                longer.push(*c);
                next.push(longer);
            }
        }
        all.extend(next.iter().cloned());
        last = next;
    }
    all
}

#[test]
fn the_classes_are_those_of_the_standard_library() {
    for c in '\0'..=char::MAX {
        assert_eq!(char_is_space(c), c.is_whitespace(), "{c:?}");
        assert_eq!(char_lower(c), c.to_ascii_lowercase(), "{c:?}");
        assert_eq!(CharClass::Digit.test(c), c.is_ascii_digit(), "{c:?}");
        assert_eq!(CharClass::Letter.test(c), c.is_ascii_alphabetic(), "{c:?}");
        assert_eq!(
            CharClass::DigitOrPoint.test(c),
            c == '.' || c.is_ascii_digit(),
            "{c:?}"
        );
    }
}

#[test]
fn a_decimal_literal_is_what_reads_as_a_number() {
    for text in words(&['0', '7', '.'], 6) {
        assert_eq!(
            check_decimal(&chars(&text)),
            text.parse::<f64>().is_ok(),
            "{text:?}"
        );
    }
}

#[test]
fn an_index_is_what_reads_as_one() {
    for text in words(&['0', '9', '+', '-', 'x'], 5) {
        assert_eq!(
            parse_index(&chars(&text)),
            text.parse::<usize>().ok(),
            "{text:?}"
        );
    }
    let mut digits = String::new();
    for _ in 0..30 {
        digits.push('9');
        assert_eq!(
            parse_index(&chars(&digits)),
            digits.parse::<usize>().ok(),
            "{digits:?}"
        );
    }
}

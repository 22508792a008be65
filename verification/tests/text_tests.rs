use randregex::store::{is_duplicate_key, pattern_of, same_text, Count, Regexp};
use randregex::text::{
    character_after, chars_of, decimal, digit, skip_spaces, skip_word, spells, string_between,
    trim_end,
};

#[test]
fn decimal_writes_numbers() {
    assert_eq!(decimal(0), "0");
    assert_eq!(decimal(7), "7");
    assert_eq!(decimal(10), "10");
    assert_eq!(decimal(3001), "3001");
    assert_eq!(decimal(usize::MAX), usize::MAX.to_string());
    assert_eq!(digit(0), '0');
    assert_eq!(digit(9), '9');
    assert_eq!(character_after('a', 25), 'z');
    assert_eq!(character_after('A', 0), 'A');
}

#[test]
fn chars_and_strings_convert_both_ways() {
    let chars = chars_of("aé\u{3000}z");
    assert_eq!(chars, vec!['a', 'é', '\u{3000}', 'z']);
    assert_eq!(string_between(&chars, 1, 3), "é\u{3000}");
    assert_eq!(string_between(&chars, 3, 1), "");
    assert_eq!(string_between(&chars, 2, 2), "");
    assert!(spells(&chars, 0, 2, "aé"));
    assert!(!spells(&chars, 0, 2, "ae"));
    assert!(!spells(&chars, 0, 2, "a"));
    assert!(spells(&chars, 1, 1, ""));
}

#[test]
fn white_space_is_stepped_over() {
    let chars = chars_of(" \t\u{3000}ab \u{A0}c\n ");
    assert_eq!(skip_spaces(&chars, 0), 3);
    assert_eq!(skip_spaces(&chars, 3), 3);
    assert_eq!(skip_word(&chars, 3), 5);
    assert_eq!(skip_spaces(&chars, 5), 7);
    assert_eq!(skip_word(&chars, 7), 8);
    assert_eq!(skip_spaces(&chars, 8), 10);
    assert_eq!(skip_word(&chars, 10), 10);
    assert_eq!(trim_end(&chars), 8);
    assert_eq!(trim_end(&chars_of("   ")), 0);
    assert_eq!(trim_end(&chars_of("")), 0);
    assert_eq!(trim_end(&chars_of("ab")), 2);
}

#[test]
fn white_space_is_what_the_list_says() {
    let listed = |c: char| {
        let n = c as u32;
        (0x09..=0x0D).contains(&n)
            || n == 0x20
            || n == 0x85
            || n == 0xA0
            || n == 0x1680
            || (0x2000..=0x200A).contains(&n)
            || n == 0x2028
            || n == 0x2029
            || n == 0x202F
            || n == 0x205F
            || n == 0x3000
    };
    for n in 0..=0x10FFFFu32 {
        if let Some(c) = char::from_u32(n) {
            assert_eq!(c.is_whitespace(), listed(c), "U+{:04X}", n);
        }
    }
}

#[test]
fn rows_are_read() {
    assert!(Count { count: 1 }.any());
    assert!(Count { count: 12 }.any());
    assert!(!Count { count: 0 }.any());
    assert!(!Count { count: -1 }.any());
    let row = Regexp {
        key: "k".to_string(),
        regexp: "a|b".to_string(),
        user_id: "u".to_string(),
        user_name: "n".to_string(),
    };
    assert_eq!(pattern_of(Some(row)), Some("a|b".to_string()));
    assert_eq!(pattern_of(None), None);
}

#[test]
fn duplicate_key_is_known_by_its_code() {
    assert!(is_duplicate_key(Some("1062")));
    assert!(!is_duplicate_key(Some("1061")));
    assert!(!is_duplicate_key(Some("10621")));
    assert!(!is_duplicate_key(Some("")));
    assert!(!is_duplicate_key(None));
    assert!(same_text("é", "é"));
    assert!(!same_text("é", "e"));
    assert!(same_text("", ""));
}

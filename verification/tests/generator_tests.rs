use rand::rngs::StdRng;
use rand::SeedableRng;
use randregex::generator::{Generate, GenerationError};
use randregex::model::{ClassElement, Expression, Factor, Literal, Term, TermSuffix, Terms, Token};

fn char_term(c: char) -> Term {
    Term::Factor(Factor::Token(Token::Literal(Literal::Char(c))))
}

fn a_or_b() -> Expression {
    Expression::Union(vec![
        Terms::Concat(vec![char_term('a')]),
        Terms::Concat(vec![char_term('b')]),
    ])
}

fn quantified(f: Factor, suffix: TermSuffix) -> Expression {
    Expression::Union(vec![Terms::Concat(vec![Term::WithSuffix(f, suffix)])])
}

#[test]
fn literal_char_gives_itself() {
    let mut rng = StdRng::seed_from_u64(1);
    assert_eq!(Literal::Char('x').generate(&mut rng), Ok("x".to_string()));
    assert_eq!(Literal::Char('é').generate(&mut rng), Ok("é".to_string()));
}

#[test]
fn escaped_sign_gives_itself() {
    let mut rng = StdRng::seed_from_u64(1);
    assert_eq!(Literal::Escape(']').generate(&mut rng), Ok("]".to_string()));
    assert_eq!(Literal::Escape('\\').generate(&mut rng), Ok("\\".to_string()));
}

#[test]
fn escaped_letter_or_digit_is_refused() {
    let mut rng = StdRng::seed_from_u64(1);
    assert_eq!(Literal::Escape('a').generate(&mut rng), Err(GenerationError::InvalidEscape));
    assert_eq!(Literal::Escape('Z').generate(&mut rng), Err(GenerationError::InvalidEscape));
    assert_eq!(Literal::Escape('7').generate(&mut rng), Err(GenerationError::InvalidEscape));
}

#[test]
fn digit_escape_gives_every_digit() {
    let mut rng = StdRng::seed_from_u64(7);
    let mut seen = [false; 10];
    for _ in 0..1000 {
        let s = Literal::Escape('d').generate(&mut rng).unwrap();
        let c = s.chars().next().unwrap();
        assert_eq!(s.chars().count(), 1);
        assert!(c.is_ascii_digit());
        seen[c as usize - '0' as usize] = true;
    }
    assert!(seen.iter().all(|b| *b));
}

#[test]
fn word_escape_gives_every_symbol() {
    let mut rng = StdRng::seed_from_u64(11);
    let mut seen = std::collections::BTreeSet::new();
    for _ in 0..5000 {
        let s = Literal::Escape('w').generate(&mut rng).unwrap();
        let c = s.chars().next().unwrap();
        assert_eq!(s.chars().count(), 1);
        assert!(c.is_ascii_alphanumeric() || c == '_');
        seen.insert(c);
    }
    assert_eq!(seen.len(), 63);
    assert!(seen.contains(&'_'));
}

#[test]
fn symbol_maps_each_index() {
    let w = Literal::Escape('w');
    assert_eq!(w.symbol(0), Ok('a'));
    assert_eq!(w.symbol(25), Ok('z'));
    assert_eq!(w.symbol(26), Ok('A'));
    assert_eq!(w.symbol(51), Ok('Z'));
    assert_eq!(w.symbol(52), Ok('0'));
    assert_eq!(w.symbol(61), Ok('9'));
    assert_eq!(w.symbol(62), Ok('_'));
    let d = Literal::Escape('d');
    assert_eq!(d.symbol(0), Ok('0'));
    assert_eq!(d.symbol(9), Ok('9'));
    assert_eq!(Literal::Char('q').symbol(0), Ok('q'));
    assert_eq!(Literal::Escape('q').symbol(0), Err(GenerationError::InvalidEscape));
    assert_eq!(Literal::Escape('+').symbol(0), Ok('+'));
}

#[test]
fn sizes_are_the_weights() {
    assert_eq!(ClassElement::Range('a', 'z').size(), 26);
    assert_eq!(ClassElement::Range('a', 'a').size(), 1);
    assert_eq!(ClassElement::Range('\u{0}', '\u{10FFFF}').size(), 0x110000);
    assert_eq!(ClassElement::Literal(Literal::Escape('d')).size(), 10);
    assert_eq!(ClassElement::Literal(Literal::Escape('w')).size(), 63);
    assert_eq!(ClassElement::Literal(Literal::Escape(']')).size(), 1);
    assert_eq!(ClassElement::Literal(Literal::Char('d')).size(), 1);
}

#[test]
fn scalar_refuses_surrogates() {
    assert_eq!(randregex::generator::scalar(0x61), Ok('a'));
    assert_eq!(randregex::generator::scalar(0xD7FF), Ok('\u{D7FF}'));
    assert_eq!(randregex::generator::scalar(0xD800), Err(GenerationError::InvalidCodepoint));
    assert_eq!(randregex::generator::scalar(0xDFFF), Err(GenerationError::InvalidCodepoint));
    assert_eq!(randregex::generator::scalar(0xE000), Ok('\u{E000}'));
    assert_eq!(randregex::generator::scalar(0x10FFFF), Ok('\u{10FFFF}'));
    assert_eq!(randregex::generator::scalar(0x110000), Err(GenerationError::InvalidCodepoint));
}

#[test]
fn range_over_surrogates_only_fails_with_invalid_codepoint() {
    let mut rng = StdRng::seed_from_u64(3);
    let e = ClassElement::Range('\u{D7FF}', '\u{E000}');
    let mut failed = false;
    for _ in 0..200 {
        match e.generate(&mut rng) {
            Ok(s) => assert!(s == "\u{D7FF}" || s == "\u{E000}"),
            Err(err) => {
                assert_eq!(err, GenerationError::InvalidCodepoint);
                failed = true;
            }
        }
    }
    assert!(failed);
}

#[test]
fn class_weight_and_pick_follow_the_order() {
    let elements = vec![
        ClassElement::Range('a', 'c'),
        ClassElement::Literal(Literal::Escape('d')),
        ClassElement::Literal(Literal::Char('-')),
    ];
    assert_eq!(randregex::generator::class_weight(&elements), 14);
    assert_eq!(randregex::generator::pick(&elements, 0), 0);
    assert_eq!(randregex::generator::pick(&elements, 2), 0);
    assert_eq!(randregex::generator::pick(&elements, 3), 1);
    assert_eq!(randregex::generator::pick(&elements, 12), 1);
    assert_eq!(randregex::generator::pick(&elements, 13), 2);
    assert_eq!(randregex::generator::class_weight(&Vec::new()), 0);
}

#[test]
fn empty_class_is_reported() {
    let mut rng = StdRng::seed_from_u64(5);
    assert_eq!(Token::Class(vec![]).generate(&mut rng), Err(GenerationError::EmptyClass));
}

#[test]
fn class_is_weighted_by_span() {
    let mut rng = StdRng::seed_from_u64(9);
    let t = Token::Class(vec![ClassElement::Range('a', 'c')]);
    let mut counts = [0usize; 3];
    for _ in 0..3000 {
        let s = t.generate(&mut rng).unwrap();
        let c = s.chars().next().unwrap();
        assert!(('a'..='c').contains(&c));
        counts[c as usize - 'a' as usize] += 1;
    }
    for n in counts {
        assert!(n > 800 && n < 1200);
    }
}

#[test]
fn union_reaches_both_branches() {
    let mut rng = StdRng::seed_from_u64(13);
    let e = a_or_b();
    let (mut a, mut b) = (false, false);
    for _ in 0..1000 {
        match e.generate(&mut rng).unwrap().as_str() {
            "a" => a = true,
            "b" => b = true,
            other => panic!("unexpected {}", other),
        }
    }
    assert!(a && b);
}

#[test]
fn repeat_is_exact() {
    let mut rng = StdRng::seed_from_u64(17);
    let e = quantified(Factor::Token(Token::Literal(Literal::Char('a'))), TermSuffix::Repeat(3));
    for _ in 0..50 {
        assert_eq!(e.generate(&mut rng), Ok("aaa".to_string()));
    }
    let none = quantified(Factor::Token(Token::Literal(Literal::Char('a'))), TermSuffix::Repeat(0));
    assert_eq!(none.generate(&mut rng), Ok(String::new()));
}

#[test]
fn bounded_range_hits_both_bounds() {
    let mut rng = StdRng::seed_from_u64(19);
    let e = quantified(Factor::Token(Token::Literal(Literal::Char('a'))), TermSuffix::Range(2, 4));
    let mut seen = [false; 5];
    for _ in 0..500 {
        let s = e.generate(&mut rng).unwrap();
        assert!(s.chars().all(|c| c == 'a'));
        assert!(s.len() >= 2 && s.len() <= 4);
        seen[s.len()] = true;
    }
    assert!(seen[2] && seen[3] && seen[4]);
}

#[test]
fn question_gives_zero_or_one() {
    let mut rng = StdRng::seed_from_u64(23);
    let e = quantified(Factor::Token(Token::Literal(Literal::Char('a'))), TermSuffix::Question);
    let (mut zero, mut one) = (false, false);
    for _ in 0..200 {
        match e.generate(&mut rng).unwrap().as_str() {
            "" => zero = true,
            "a" => one = true,
            other => panic!("unexpected {}", other),
        }
    }
    assert!(zero && one);
}

#[test]
fn plus_and_open_range_respect_their_minimum() {
    let mut rng = StdRng::seed_from_u64(29);
    let plus = quantified(Factor::Token(Token::Literal(Literal::Char('a'))), TermSuffix::Plus);
    let open = quantified(Factor::Token(Token::Literal(Literal::Char('a'))), TermSuffix::OpenRange(3));
    let star = quantified(Factor::Token(Token::Literal(Literal::Char('a'))), TermSuffix::Asterisk);
    let mut longer = false;
    let mut empty = false;
    for _ in 0..300 {
        assert!(plus.generate(&mut rng).unwrap().len() >= 1);
        let s = open.generate(&mut rng).unwrap();
        assert!(s.len() >= 3);
        longer = longer || s.len() > 13;
        empty = empty || star.generate(&mut rng).unwrap().is_empty();
    }
    assert!(empty);
    let mut rng = StdRng::seed_from_u64(31);
    let mut max = 0;
    for _ in 0..200000 {
        max = max.max(open.generate(&mut rng).unwrap().len());
    }
    assert!(longer || max > 13);
}

#[test]
fn grow_starts_at_its_argument() {
    let mut rng = StdRng::seed_from_u64(37);
    let mut grew = false;
    let mut stayed = false;
    for _ in 0..200 {
        let n = randregex::generator::grow(5, &mut rng);
        assert!(n >= 5);
        grew = grew || n > 5;
        stayed = stayed || n == 5;
    }
    assert!(grew && stayed);
    assert_eq!(randregex::generator::grow(usize::MAX, &mut rng), usize::MAX);
    assert_eq!(randregex::generator::after_flip(5, true), Some(6));
    assert_eq!(randregex::generator::after_flip(5, false), None);
    assert_eq!(randregex::generator::after_flip(usize::MAX, true), None);
}

#[test]
fn fixed_group_repeats_one_sample() {
    let mut rng = StdRng::seed_from_u64(41);
    let e = quantified(Factor::FixedGroup(Box::new(a_or_b())), TermSuffix::Repeat(3));
    let (mut a, mut b) = (false, false);
    for _ in 0..200 {
        match e.generate(&mut rng).unwrap().as_str() {
            "aaa" => a = true,
            "bbb" => b = true,
            other => panic!("mixed sample {}", other),
        }
    }
    assert!(a && b);
}

#[test]
fn plain_group_samples_each_repetition() {
    let mut rng = StdRng::seed_from_u64(43);
    let e = quantified(Factor::Group(Box::new(a_or_b())), TermSuffix::Repeat(3));
    let mut mixed = false;
    for _ in 0..200 {
        let s = e.generate(&mut rng).unwrap();
        assert_eq!(s.len(), 3);
        assert!(s.chars().all(|c| c == 'a' || c == 'b'));
        mixed = mixed || (s != "aaa" && s != "bbb");
    }
    assert!(mixed);
}

#[test]
fn fixed_group_with_zero_repetitions_still_reports_its_error() {
    let mut rng = StdRng::seed_from_u64(47);
    let bad = Expression::Union(vec![Terms::Concat(vec![Term::Factor(Factor::Token(
        Token::Literal(Literal::Escape('q')),
    ))])]);
    let e = quantified(Factor::FixedGroup(Box::new(bad)), TermSuffix::Repeat(0));
    assert_eq!(e.generate(&mut rng), Err(GenerationError::InvalidEscape));
}

#[test]
fn concat_keeps_the_order() {
    let mut rng = StdRng::seed_from_u64(53);
    let e = Expression::Union(vec![Terms::Concat(vec![
        char_term('x'),
        Term::WithSuffix(Factor::Token(Token::Literal(Literal::Char('y'))), TermSuffix::Repeat(2)),
        char_term('z'),
    ])]);
    assert_eq!(e.generate(&mut rng), Ok("xyyz".to_string()));
    assert_eq!(Terms::Concat(vec![]).generate(&mut rng), Ok(String::new()));
}

#[test]
fn seeded_source_is_reproducible() {
    let e = quantified(Factor::Group(Box::new(a_or_b())), TermSuffix::Range(5, 20));
    let mut first = StdRng::seed_from_u64(59);
    let mut second = StdRng::seed_from_u64(59);
    for _ in 0..20 {
        assert_eq!(e.generate(&mut first), e.generate(&mut second));
    }
}

#[test]
fn repeat_and_single_build_strings() {
    assert_eq!(randregex::text::repeat("ab", 3), "ababab");
    assert_eq!(randregex::text::repeat("ab", 0), "");
    assert_eq!(randregex::text::single('q'), "q");
}

#[test]
fn clones_are_equal_trees() {
    let e = quantified(Factor::FixedGroup(Box::new(a_or_b())), TermSuffix::Range(1, 2));
    let copy = e.clone();
    assert_eq!(e, copy);
    let t = Token::Class(vec![ClassElement::Range('a', 'c'), ClassElement::Literal(Literal::Escape('d'))]);
    assert_eq!(t.clone(), t);
}

fn draw_from<T: Generate>(part: &T, rng: &mut StdRng) -> Result<String, GenerationError> {
    part.generate(rng)
}

#[test]
fn every_part_of_a_tree_generates() {
    let mut rng = StdRng::seed_from_u64(61);
    assert_eq!(draw_from(&Literal::Char('a'), &mut rng), Ok("a".to_string()));
    assert_eq!(draw_from(&ClassElement::Range('b', 'b'), &mut rng), Ok("b".to_string()));
    assert_eq!(
        draw_from(&Token::Class(vec![ClassElement::Literal(Literal::Char('c'))]), &mut rng),
        Ok("c".to_string())
    );
    assert_eq!(
        draw_from(&Factor::Group(Box::new(quantified(
            Factor::Token(Token::Literal(Literal::Char('d'))),
            TermSuffix::Repeat(2)
        ))), &mut rng),
        Ok("dd".to_string())
    );
    assert_eq!(draw_from(&char_term('e'), &mut rng), Ok("e".to_string()));
    assert_eq!(
        draw_from(&Terms::Concat(vec![char_term('f'), char_term('g')]), &mut rng),
        Ok("fg".to_string())
    );
    assert_eq!(
        Factor::Token(Token::Literal(Literal::Char('h'))).generate_times(3, &mut rng),
        Ok("hhh".to_string())
    );
    assert_eq!(TermSuffix::Repeat(4).count(&mut rng), 4);
    for _ in 0..50 {
        let n = TermSuffix::Range(2, 3).count(&mut rng);
        assert!(n == 2 || n == 3);
        assert!(TermSuffix::Question.count(&mut rng) <= 1);
        assert!(TermSuffix::Plus.count(&mut rng) >= 1);
        assert!(TermSuffix::OpenRange(7).count(&mut rng) >= 7);
    }
}

use rand::rngs::StdRng;
use rand::SeedableRng;
use randregex::generator::{Generate, GenerationError};
use randregex::parser::parse;

fn sample(pattern: &str, rng: &mut StdRng) -> Result<String, GenerationError> {
    parse(pattern).unwrap().generate(rng)
}

#[test]
fn single_character_pattern_gives_that_character() {
    let mut rng = StdRng::seed_from_u64(101);
    for c in ['a', 'Z', '0', ' ', '-', '/', 'é', '\u{10FFFF}'] {
        for _ in 0..20 {
            assert_eq!(sample(&c.to_string(), &mut rng), Ok(c.to_string()));
        }
    }
}

#[test]
fn alternation_gives_both_branches() {
    let mut rng = StdRng::seed_from_u64(103);
    let e = parse("a|b").unwrap();
    let (mut a, mut b) = (false, false);
    for _ in 0..1000 {
        match e.generate(&mut rng).unwrap().as_str() {
            "a" => a = true,
            "b" => b = true,
            other => panic!("unexpected {}", other),
        }
    }
    assert!(a && b);
}

#[test]
fn exact_repeat_gives_three() {
    let mut rng = StdRng::seed_from_u64(107);
    for _ in 0..100 {
        assert_eq!(sample("a{3}", &mut rng), Ok("aaa".to_string()));
    }
}

#[test]
fn bounded_repeat_stays_within_bounds_and_hits_them() {
    let mut rng = StdRng::seed_from_u64(109);
    let e = parse("a{2,4}").unwrap();
    let mut seen = [false; 5];
    for _ in 0..500 {
        let s = e.generate(&mut rng).unwrap();
        assert!(s == "aa" || s == "aaa" || s == "aaaa");
        seen[s.len()] = true;
    }
    assert!(seen[2] && seen[3] && seen[4]);
}

#[test]
fn fixed_group_is_never_mixed() {
    let mut rng = StdRng::seed_from_u64(113);
    let e = parse("<a|b>{3}").unwrap();
    let (mut a, mut b) = (false, false);
    for _ in 0..500 {
        match e.generate(&mut rng).unwrap().as_str() {
            "aaa" => a = true,
            "bbb" => b = true,
            other => panic!("mixed sample {}", other),
        }
    }
    assert!(a && b);
}

#[test]
fn plain_group_is_sometimes_mixed() {
    let mut rng = StdRng::seed_from_u64(127);
    let e = parse("(a|b){3}").unwrap();
    let mut mixed = false;
    for _ in 0..500 {
        let s = e.generate(&mut rng).unwrap();
        assert_eq!(s.len(), 3);
        mixed = mixed || (s != "aaa" && s != "bbb");
    }
    assert!(mixed);
}

#[test]
fn class_range_is_roughly_uniform() {
    let mut rng = StdRng::seed_from_u64(131);
    let e = parse("[a-c]").unwrap();
    let mut counts = [0usize; 3];
    for _ in 0..3000 {
        let s = e.generate(&mut rng).unwrap();
        assert!(s == "a" || s == "b" || s == "c");
        counts[(s.as_bytes()[0] - b'a') as usize] += 1;
    }
    for n in counts {
        assert!(n > 800 && n < 1200);
    }
}

#[test]
fn class_weighs_a_marker_by_its_alphabet() {
    let mut rng = StdRng::seed_from_u64(137);
    let e = parse(r"[x\d]").unwrap();
    let mut x = 0usize;
    for _ in 0..11000 {
        let s = e.generate(&mut rng).unwrap();
        assert_eq!(s.chars().count(), 1);
        let c = s.chars().next().unwrap();
        assert!(c == 'x' || c.is_ascii_digit());
        if c == 'x' {
            x += 1;
        }
    }
    assert!(x > 700 && x < 1300);
}

#[test]
fn digit_escape_gives_one_digit() {
    let mut rng = StdRng::seed_from_u64(139);
    let e = parse(r"\d").unwrap();
    for _ in 0..500 {
        let s = e.generate(&mut rng).unwrap();
        assert_eq!(s.len(), 1);
        assert!(s.as_bytes()[0].is_ascii_digit());
    }
}

#[test]
fn escaped_letter_parses_but_does_not_generate() {
    let mut rng = StdRng::seed_from_u64(149);
    assert_eq!(sample(r"\a", &mut rng), Err(GenerationError::InvalidEscape));
    assert_eq!(sample(r"x(y|\q){0}", &mut rng), Ok("x".to_string()));
    assert_eq!(sample(r"\+\|", &mut rng), Ok("+|".to_string()));
}

#[test]
fn open_range_grows_beyond_ten_above_its_minimum() {
    let mut rng = StdRng::seed_from_u64(151);
    let e = parse("a{1,}").unwrap();
    let mut longest = 0;
    for _ in 0..200000 {
        let n = e.generate(&mut rng).unwrap().len();
        assert!(n >= 1);
        longest = longest.max(n);
    }
    assert!(longest > 11);
}

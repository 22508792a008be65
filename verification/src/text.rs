//! Characters and strings: what is believed of the standard library, and the
//! conversions between text and sequences of characters.
use vstd::prelude::*;
use vstd::string::{StrSliceExecFns, StringExecFns};

verus! {

/// Whether `code` is the code point of a character: at most `0x10FFFF` and
/// no surrogate.
pub open spec fn is_scalar(code: int) -> bool {
    0 <= code <= 0xD7FF || 0xE000 <= code <= 0x10FFFF
}

/// `char::from_u32`: the character with the given code point, where there is
/// one, and `None` where the number is a surrogate or above `0x10FFFF`.
pub assume_specification[ char::from_u32 ](code: u32) -> (c: Option<char>)
    ensures
        is_scalar(code as int) ==> c == Some(code as char),
        !is_scalar(code as int) ==> c.is_none(),
;

/// Whether `c` is white space as Unicode defines it.
pub open spec fn is_space(c: char) -> bool {
    let code = c as u32;
    ||| 0x09 <= code <= 0x0D
    ||| code == 0x20
    ||| code == 0x85
    ||| code == 0xA0
    ||| code == 0x1680
    ||| 0x2000 <= code <= 0x200A
    ||| code == 0x2028
    ||| code == 0x2029
    ||| code == 0x202F
    ||| code == 0x205F
    ||| code == 0x3000
}

/// `char::is_whitespace`: whether the character has the Unicode property
/// `White_Space`, whose members [`is_space`] lists.
pub assume_specification[ char::is_whitespace ](c: char) -> (b: bool)
    ensures
        b == is_space(c),
;

/// `String::push`: the character is appended to the end of the string.
pub assume_specification[ String::push ](s: &mut String, c: char)
    ensures
        final(s)@ == old(s)@.push(c),
;

/// The character that stands `offset` places behind `first`, both within
/// ASCII.
pub fn character_after(first: char, offset: u32) -> (c: char)
    requires
        first as u32 + offset < 128,
    ensures
        c == (first as u32 + offset) as char,
{
    match char::from_u32(first as u32 + offset) {
        Some(c) => c,
        None => first,
    }
}

/// `count` copies of `base`, one after the other.
pub open spec fn repeated(base: Seq<char>, count: nat) -> Seq<char>
    decreases count,
{
    if count == 0 {
        Seq::empty()
    } else {
        repeated(base, (count - 1) as nat) + base
    }
}

/// The string that holds the one character `c`.
pub fn single(c: char) -> (s: String)
    ensures
        s@ == seq![c],
{
    let mut s = String::new();
    s.push(c);
    s
}

/// `base`, written `count` times in a row.
pub fn repeat(base: &str, count: usize) -> (s: String)
    ensures
        s@ == repeated(base@, count as nat),
{
    let mut s = String::new();
    let mut done: usize = 0;
    while done < count
        invariant
            done <= count,
            s@ == repeated(base@, done as nat),
        decreases count - done,
    {
        s.append(base);
        done += 1;
    }
    s
}

/// The characters of `s`, in order.
pub fn chars_of(s: &str) -> (v: Vec<char>)
    ensures
        v@ == s@,
{
    let mut v: Vec<char> = Vec::new();
    for c in it: s.chars()
        invariant
            it.seq() == s@,
            v@ == s@.take(it.index()),
    {
        v.push(c);
        proof {
            assert(s@.take(it.index() + 1) =~= s@.take(it.index()).push(c));
        }
    }
    proof {
        assert(s@.take(s@.len() as int) =~= s@);
    }
    v
}

/// The characters from `from` up to `to`, or none where `to` is not behind
/// `from`.
pub open spec fn piece(s: Seq<char>, from: int, to: int) -> Seq<char> {
    if 0 <= from < to <= s.len() {
        s.subrange(from, to)
    } else {
        Seq::empty()
    }
}

/// The characters of `chars` from `from` up to `to`, as a string.
pub fn string_between(chars: &Vec<char>, from: usize, to: usize) -> (s: String)
    requires
        to <= chars.len(),
    ensures
        s@ == piece(chars@, from as int, to as int),
{
    let mut s = String::new();
    if from >= to {
        return s;
    }
    let mut i: usize = from;
    while i < to
        invariant
            from <= i <= to <= chars.len(),
            s@ == chars@.subrange(from as int, i as int),
        decreases to - i,
    {
        s.push(chars[i]);
        proof {
            assert(chars@.subrange(from as int, i + 1) =~= chars@.subrange(
                from as int,
                i as int,
            ).push(chars[i as int]));
        }
        i += 1;
    }
    s
}

/// Whether the characters of `chars` from `from` up to `to` spell `word`.
pub fn spells(chars: &Vec<char>, from: usize, to: usize, word: &str) -> (b: bool)
    requires
        from <= to <= chars.len(),
    ensures
        b == (chars@.subrange(from as int, to as int) == word@),
{
    let n = word.unicode_len();
    if to - from != n {
        return false;
    }
    let mut i: usize = 0;
    while i < n
        invariant
            i <= n,
            n == word@.len(),
            from + n == to,
            to <= chars.len(),
            forall|j: int| 0 <= j < i ==> chars@[from + j] == word@[j],
        decreases n - i,
    {
        if chars[from + i] != word.get_char(i) {
            proof {
                assert(chars@.subrange(from as int, to as int)[i as int] != word@[i as int]);
            }
            return false;
        }
        i += 1;
    }
    proof {
        assert(chars@.subrange(from as int, to as int) =~= word@);
    }
    true
}

/// The position of the first character at or behind `from` that is no white
/// space, or the length where there is none.
pub open spec fn spaces_end(s: Seq<char>, from: int) -> int
    decreases s.len() - from,
{
    if 0 <= from < s.len() && is_space(s[from]) {
        spaces_end(s, from + 1)
    } else {
        from
    }
}

/// The position of the first white space at or behind `from`, or the length
/// where there is none.
pub open spec fn word_end(s: Seq<char>, from: int) -> int
    decreases s.len() - from,
{
    if 0 <= from < s.len() && !is_space(s[from]) {
        word_end(s, from + 1)
    } else {
        from
    }
}

/// The position behind the last character before `to` that is no white
/// space, or zero where there is none.
pub open spec fn trimmed_end(s: Seq<char>, to: int) -> int
    decreases to,
{
    if 0 < to <= s.len() && is_space(s[to - 1]) {
        trimmed_end(s, to - 1)
    } else {
        to
    }
}

/// A word ends at or behind its start, within the text.
pub proof fn lemma_word_end_bounds(s: Seq<char>, from: int)
    requires
        0 <= from <= s.len(),
    ensures
        from <= word_end(s, from) <= s.len(),
    decreases s.len() - from,
{
    if from < s.len() && !is_space(s[from]) {
        lemma_word_end_bounds(s, from + 1);
    }
}

/// Steps over the white space at `from`.
pub fn skip_spaces(chars: &Vec<char>, from: usize) -> (end: usize)
    requires
        from <= chars.len(),
    ensures
        end == spaces_end(chars@, from as int),
        from <= end <= chars.len(),
{
    let mut end = from;
    while end < chars.len() && chars[end].is_whitespace()
        invariant
            from <= end <= chars.len(),
            spaces_end(chars@, from as int) == spaces_end(chars@, end as int),
        decreases chars.len() - end,
    {
        end += 1;
    }
    end
}

/// Steps over the characters at `from` that are no white space.
pub fn skip_word(chars: &Vec<char>, from: usize) -> (end: usize)
    requires
        from <= chars.len(),
    ensures
        end == word_end(chars@, from as int),
        from <= end <= chars.len(),
{
    let mut end = from;
    while end < chars.len() && !chars[end].is_whitespace()
        invariant
            from <= end <= chars.len(),
            word_end(chars@, from as int) == word_end(chars@, end as int),
        decreases chars.len() - end,
    {
        end += 1;
    }
    end
}

/// Steps back over the white space at the end.
pub fn trim_end(chars: &Vec<char>) -> (end: usize)
    ensures
        end == trimmed_end(chars@, chars.len() as int),
        end <= chars.len(),
{
    let mut end = chars.len();
    while end > 0 && chars[end - 1].is_whitespace()
        invariant
            end <= chars.len(),
            trimmed_end(chars@, chars.len() as int) == trimmed_end(chars@, end as int),
        decreases end,
    {
        end -= 1;
    }
    end
}

/// The digit that writes `value`, which is below ten.
pub open spec fn digit_of(value: nat) -> char {
    ('0' as u32 + value) as char
}

/// The digits that write `n` in base ten, without a leading zero.
pub open spec fn decimal_digits(n: nat) -> Seq<char>
    decreases n,
{
    if n < 10 {
        seq![digit_of(n)]
    } else {
        decimal_digits(n / 10).push(digit_of(n % 10))
    }
}

/// The digit that writes `value`.
pub fn digit(value: usize) -> (c: char)
    requires
        value < 10,
    ensures
        c == digit_of(value as nat),
{
    character_after('0', value as u32)
}

/// `n`, written in base ten.
pub fn decimal(n: usize) -> (s: String)
    ensures
        s@ == decimal_digits(n as nat),
{
    let mut low: Vec<char> = Vec::new();
    let mut rest: usize = n;
    while rest >= 10
        invariant
            decimal_digits(n as nat) == decimal_digits(rest as nat) + low@.reverse(),
        decreases rest,
    {
        let d = digit(rest % 10);
        proof {
            assert(low@.push(d).reverse() =~= seq![d] + low@.reverse());
            assert(decimal_digits((rest / 10) as nat).push(d) + low@.reverse()
                =~= decimal_digits((rest / 10) as nat) + (seq![d] + low@.reverse()));
        }
        low.push(d);
        rest = rest / 10;
    }
    let mut s = single(digit(rest));
    let mut i: usize = low.len();
    proof {
        assert(low@.subrange(i as int, low.len() as int).reverse() =~= Seq::<char>::empty());
        assert(s@ + Seq::<char>::empty() =~= s@);
        assert(low@.subrange(0, low.len() as int) =~= low@);
    }
    while i > 0
        invariant
            i <= low.len(),
            s@ == decimal_digits(rest as nat) + low@.subrange(i as int, low.len() as int).reverse(),
        decreases i,
    {
        i -= 1;
        proof {
            assert(low@.subrange(i as int, low.len() as int).reverse() =~= low@.subrange(
                i + 1,
                low.len() as int,
            ).reverse().push(low[i as int]));
            assert((decimal_digits(rest as nat) + low@.subrange(
                i + 1,
                low.len() as int,
            ).reverse()).push(low[i as int]) =~= decimal_digits(rest as nat) + low@.subrange(
                i as int,
                low.len() as int,
            ).reverse());
        }
        s.push(low[i]);
    }
    s
}

} // verus!

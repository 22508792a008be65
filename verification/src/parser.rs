//! Reading a pattern.
//!
//! The `scan_` functions read one construct of the grammar at a position of
//! a text that is held as characters; each gives exactly what the grammar
//! says stands there. The functions named after the constructs take a
//! string, read at its start and hand back the rest; [`parse`] reads a whole
//! pattern.
use crate::grammar;
use crate::model::{
    branch_models, branches_well_formed, elements_well_formed, term_models, terms_well_formed, ClassElement, Expression, Factor, Literal,
    Term, TermSuffix, Terms, Token,
};
use crate::text::chars_of;
use vstd::prelude::*;
use vstd::string::StrSliceExecFns;

verus! {

/// The text is no pattern. `position` counts the characters that could be
/// read before the reading came to a halt.
#[derive(Debug, Clone, Copy, PartialEq, Eq)]
pub struct ParseError {
    pub position: usize,
}

/// Whether `c` stands for itself only behind a backslash.
pub fn is_reserved(c: char) -> (b: bool)
    ensures
        b == grammar::is_reserved(c),
{
    c == '[' || c == ']' || c == '(' || c == ')' || c == '<' || c == '>' || c == '{' || c == '}'
        || c == '?' || c == '*' || c == '+' || c == '|'
}

/// Whether the character `c` stands at `pos`.
fn at(input: &Vec<char>, pos: usize, c: char) -> (b: bool)
    ensures
        b == grammar::at(input@, pos as int, c),
        b ==> pos < input.len(),
{
    pos < input.len() && input[pos] == c
}

/// Reads a literal at `pos`.
pub fn scan_literal(input: &Vec<char>, pos: usize) -> (r: Option<(Literal, usize)>)
    ensures
        match r {
            Some((l, end)) => grammar::literal(input@, pos as int) == Some((l, end as int)) && pos
                < end <= input.len(),
            None => grammar::literal(input@, pos as int).is_none(),
        },
{
    if pos >= input.len() {
        return None;
    }
    let first = input[pos];
    if first == '\\' {
        if pos + 1 < input.len() {
            Some((Literal::Escape(input[pos + 1]), pos + 2))
        } else {
            None
        }
    } else if is_reserved(first) {
        None
    } else {
        Some((Literal::Char(first), pos + 1))
    }
}

/// Reads a member of a class at `pos`.
pub fn scan_class_element(input: &Vec<char>, pos: usize) -> (r: Option<(ClassElement, usize)>)
    ensures
        match r {
            Some((e, end)) => grammar::class_element(input@, pos as int) == Some((e, end as int))
                && pos < end <= input.len() && e.well_formed(),
            None => grammar::class_element(input@, pos as int).is_none(),
        },
{
    match scan_literal(input, pos) {
        None => None,
        Some((Literal::Escape(c), end)) => Some((ClassElement::Literal(Literal::Escape(c)), end)),
        Some((Literal::Char(low), end)) => {
            if low != '-' && at(input, end, '-') {
                match scan_literal(input, end + 1) {
                    Some((Literal::Char(high), behind)) => {
                        if low <= high {
                            Some((ClassElement::Range(low, high), behind))
                        } else {
                            None
                        }
                    },
                    _ => Some((ClassElement::Literal(Literal::Char(low)), end)),
                }
            } else {
                Some((ClassElement::Literal(Literal::Char(low)), end))
            }
        },
    }
}

/// Reads a class at `pos`.
pub fn scan_class(input: &Vec<char>, pos: usize) -> (r: Option<(Token, usize)>)
    ensures
        match r {
            Some((t, end)) => grammar::class(input@, pos as int) == Some((t@, end as int)) && pos
                < end <= input.len() && t@.well_formed(),
            None => grammar::class(input@, pos as int).is_none(),
        },
{
    if !at(input, pos, '[') {
        return None;
    }
    let mut elements: Vec<ClassElement> = Vec::new();
    let mut end: usize = pos + 1;
    let mut more = true;
    while more
        invariant
            pos < end <= input.len(),
            elements_well_formed(elements@),
            grammar::class_elements(input@, pos + 1, Seq::empty()) == grammar::class_elements(
                input@,
                end as int,
                elements@,
            ),
            !more ==> grammar::class_elements(input@, end as int, elements@) == (
                elements@,
                end as int,
            ),
        decreases input.len() - end, if more { 1nat } else { 0nat },
    {
        match scan_class_element(input, end) {
            Some((e, behind)) => {
                elements.push(e);
                end = behind;
            },
            None => {
                more = false;
            },
        }
    }
    if elements.len() > 0 && at(input, end, ']') {
        Some((Token::Class(elements), end + 1))
    } else {
        None
    }
}

/// Reads a token at `pos`.
pub fn scan_token(input: &Vec<char>, pos: usize) -> (r: Option<(Token, usize)>)
    ensures
        match r {
            Some((t, end)) => grammar::token(input@, pos as int) == Some((t@, end as int)) && pos
                < end <= input.len() && t@.well_formed(),
            None => grammar::token(input@, pos as int).is_none(),
        },
{
    match scan_class(input, pos) {
        Some(found) => Some(found),
        None => match scan_literal(input, pos) {
            Some((l, end)) => Some((Token::Literal(l), end)),
            None => None,
        },
    }
}

/// A longer run of digits writes no smaller a number.
pub proof fn lemma_digits_value_grows(s: Seq<char>, from: int, to: int, further: int)
    requires
        from <= to <= further,
    ensures
        grammar::digits_value(s, from, to) <= grammar::digits_value(s, from, further),
    decreases further - to,
{
    if to < further {
        lemma_digits_value_grows(s, from, to, further - 1);
    }
}

/// From within a run of digits, the run ends where it ends from its start.
pub proof fn lemma_digits_end_within(s: Seq<char>, from: int, to: int)
    requires
        0 <= from <= to <= s.len(),
        forall|i: int| from <= i < to ==> grammar::is_digit(#[trigger] s[i]),
    ensures
        grammar::digits_end(s, from) == grammar::digits_end(s, to),
    decreases to - from,
{
    if from < to {
        lemma_digits_end_within(s, from + 1, to);
    }
}

/// Reads a count at `pos`.
pub fn scan_number(input: &Vec<char>, pos: usize) -> (r: Option<(usize, usize)>)
    ensures
        match r {
            Some((n, end)) => grammar::number(input@, pos as int) == Some((n, end as int)) && pos
                < end <= input.len(),
            None => grammar::number(input@, pos as int).is_none(),
        },
{
    if pos >= input.len() {
        return None;
    }
    let mut end: usize = pos;
    let mut value: usize = 0;
    let mut fits = true;
    while end < input.len() && '0' <= input[end] && input[end] <= '9'
        invariant
            pos <= end <= input.len(),
            forall|i: int| pos <= i < end ==> grammar::is_digit(#[trigger] input@[i]),
            fits ==> value == grammar::digits_value(input@, pos as int, end as int),
            !fits ==> grammar::digits_value(input@, pos as int, end as int) > usize::MAX,
        decreases input.len() - end,
    {
        let digit = (input[end] as u32 - '0' as u32) as usize;
        proof {
            lemma_digits_value_grows(input@, pos as int, end as int, end + 1);
        }
        if fits {
            match value.checked_mul(10) {
                Some(tens) => match tens.checked_add(digit) {
                    Some(sum) => {
                        value = sum;
                    },
                    None => {
                        fits = false;
                    },
                },
                None => {
                    fits = false;
                },
            }
        }
        end += 1;
    }
    proof {
        lemma_digits_end_within(input@, pos as int, end as int);
    }
    if pos < end && fits {
        Some((value, end))
    } else {
        None
    }
}

/// Reads the inside and the closing brace of a quantifier at `pos`.
pub fn scan_braced(input: &Vec<char>, pos: usize) -> (r: Option<(TermSuffix, usize)>)
    ensures
        match r {
            Some((suffix, end)) => grammar::braced(input@, pos as int) == Some(
                (suffix, end as int),
            ) && pos < end <= input.len() && suffix.well_formed(),
            None => grammar::braced(input@, pos as int).is_none(),
        },
{
    match scan_number(input, pos) {
        None => None,
        Some((min, end)) => {
            if at(input, end, '}') {
                Some((TermSuffix::Repeat(min), end + 1))
            } else if at(input, end, ',') {
                if at(input, end + 1, '}') {
                    Some((TermSuffix::OpenRange(min), end + 2))
                } else {
                    match scan_number(input, end + 1) {
                        Some((max, behind)) => {
                            if at(input, behind, '}') && min <= max {
                                Some((TermSuffix::Range(min, max), behind + 1))
                            } else {
                                None
                            }
                        },
                        None => None,
                    }
                }
            } else {
                None
            }
        },
    }
}

/// Reads a quantifier at `pos`.
pub fn scan_term_suffix(input: &Vec<char>, pos: usize) -> (r: Option<(TermSuffix, usize)>)
    ensures
        match r {
            Some((suffix, end)) => grammar::term_suffix(input@, pos as int) == Some(
                (suffix, end as int),
            ) && pos < end <= input.len() && suffix.well_formed(),
            None => grammar::term_suffix(input@, pos as int).is_none(),
        },
{
    if at(input, pos, '?') {
        Some((TermSuffix::Question, pos + 1))
    } else if at(input, pos, '*') {
        Some((TermSuffix::Asterisk, pos + 1))
    } else if at(input, pos, '+') {
        Some((TermSuffix::Plus, pos + 1))
    } else if at(input, pos, '{') {
        scan_braced(input, pos + 1)
    } else {
        None
    }
}

/// Reads a factor at `pos`.
pub fn scan_factor(input: &Vec<char>, pos: usize) -> (r: Option<(Factor, usize)>)
    ensures
        match r {
            Some((f, end)) => grammar::factor(input@, pos as int) == Some((f@, end as int)) && pos
                < end <= input.len() && f@.well_formed(),
            None => grammar::factor(input@, pos as int).is_none(),
        },
    decreases input.len() - pos, 0nat,
{
    if at(input, pos, '(') {
        match scan_expression(input, pos + 1) {
            Some((e, end)) => {
                if at(input, end, ')') {
                    Some((Factor::Group(Box::new(e)), end + 1))
                } else {
                    None
                }
            },
            None => None,
        }
    } else if at(input, pos, '<') {
        match scan_expression(input, pos + 1) {
            Some((e, end)) => {
                if at(input, end, '>') {
                    Some((Factor::FixedGroup(Box::new(e)), end + 1))
                } else {
                    None
                }
            },
            None => None,
        }
    } else {
        match scan_token(input, pos) {
            Some((t, end)) => Some((Factor::Token(t), end)),
            None => None,
        }
    }
}

/// Reads a term at `pos`.
pub fn scan_term(input: &Vec<char>, pos: usize) -> (r: Option<(Term, usize)>)
    ensures
        match r {
            Some((t, end)) => grammar::term(input@, pos as int) == Some((t@, end as int)) && pos
                < end <= input.len() && t@.well_formed(),
            None => grammar::term(input@, pos as int).is_none(),
        },
    decreases input.len() - pos, 1nat,
{
    match scan_factor(input, pos) {
        None => None,
        Some((f, end)) => match scan_term_suffix(input, end) {
            Some((suffix, behind)) => Some((Term::WithSuffix(f, suffix), behind)),
            None => Some((Term::Factor(f), end)),
        },
    }
}

/// Reads a concatenation at `pos`.
pub fn scan_terms(input: &Vec<char>, pos: usize) -> (r: Option<(Terms, usize)>)
    ensures
        match r {
            Some((t, end)) => grammar::terms(input@, pos as int) == Some((t@, end as int)) && pos
                < end <= input.len() && t@.well_formed(),
            None => grammar::terms(input@, pos as int).is_none(),
        },
    decreases input.len() - pos, 3nat,
{
    let mut list: Vec<Term> = Vec::new();
    let mut end: usize = pos;
    let mut more = true;
    proof {
        assert(term_models(list@) =~= Seq::empty());
    }
    while more
        invariant
            pos <= end,
            list.len() > 0 ==> pos < end <= input.len(),
            list.len() == 0 ==> end == pos,
            terms_well_formed(term_models(list@)),
            grammar::term_list(input@, pos as int, Seq::empty()) == grammar::term_list(
                input@,
                end as int,
                term_models(list@),
            ),
            !more ==> grammar::term_list(input@, end as int, term_models(list@)) == (
                term_models(list@),
                end as int,
            ),
        decreases input.len() - end, if more { 1nat } else { 0nat },
    {
        match scan_term(input, end) {
            Some((t, behind)) => {
                proof {
                    assert(term_models(list@.push(t)) =~= term_models(list@).push(t@));
                }
                list.push(t);
                end = behind;
            },
            None => {
                more = false;
            },
        }
    }
    if list.len() > 0 {
        Some((Terms::Concat(list), end))
    } else {
        None
    }
}

/// Reads an alternation at `pos`.
pub fn scan_expression(input: &Vec<char>, pos: usize) -> (r: Option<(Expression, usize)>)
    ensures
        match r {
            Some((e, end)) => grammar::expression(input@, pos as int) == Some((e@, end as int))
                && pos < end <= input.len() && e@.well_formed(),
            None => grammar::expression(input@, pos as int).is_none(),
        },
    decreases input.len() - pos, 5nat,
{
    let (first, start) = match scan_terms(input, pos) {
        Some(found) => found,
        None => {
            return None;
        },
    };
    let ghost first_model = first@;
    let mut branches: Vec<Terms> = Vec::new();
    branches.push(first);
    proof {
        assert(branch_models(branches@) =~= seq![first_model]);
    }
    let mut end: usize = start;
    let mut more = true;
    while more
        invariant
            pos < start <= end <= input.len(),
            branches.len() > 0,
            branches_well_formed(branch_models(branches@)),
            grammar::branch_list(input@, start as int, seq![first_model]) == grammar::branch_list(
                input@,
                end as int,
                branch_models(branches@),
            ),
            !more ==> grammar::branch_list(input@, end as int, branch_models(branches@)) == (
                branch_models(branches@),
                end as int,
            ),
        decreases input.len() - end, if more { 1nat } else { 0nat },
    {
        if at(input, end, '|') {
            match scan_terms(input, end + 1) {
                Some((t, behind)) => {
                    proof {
                        assert(branch_models(branches@.push(t)) =~= branch_models(branches@).push(
                            t@,
                        ));
                    }
                    branches.push(t);
                    end = behind;
                },
                None => {
                    more = false;
                },
            }
        } else {
            more = false;
        }
    }
    Some((Expression::Union(branches), end))
}

/// Reads a literal at the start of `s` and hands back the rest.
pub fn literal<'a>(s: &'a str) -> (r: Result<(&'a str, Literal), ParseError>)
    ensures
        match grammar::literal(s@, 0) {
            Some((l, end)) => r matches Ok((rest, found)) && found == l && rest@ == s@.skip(end),
            None => r == Err::<(&str, Literal), ParseError>(ParseError { position: 0 }),
        },
{
    let input = chars_of(s);
    match scan_literal(&input, 0) {
        Some((l, end)) => Ok((s.substring_char(end, input.len()), l)),
        None => Err(ParseError { position: 0 }),
    }
}

/// Reads a member of a class at the start of `s` and hands back the rest.
pub fn class_element<'a>(s: &'a str) -> (r: Result<(&'a str, ClassElement), ParseError>)
    ensures
        match grammar::class_element(s@, 0) {
            Some((e, end)) => r matches Ok((rest, found)) && found == e && rest@ == s@.skip(end),
            None => r == Err::<(&str, ClassElement), ParseError>(ParseError { position: 0 }),
        },
{
    let input = chars_of(s);
    match scan_class_element(&input, 0) {
        Some((e, end)) => Ok((s.substring_char(end, input.len()), e)),
        None => Err(ParseError { position: 0 }),
    }
}

/// Reads a token at the start of `s` and hands back the rest.
pub fn token<'a>(s: &'a str) -> (r: Result<(&'a str, Token), ParseError>)
    ensures
        match grammar::token(s@, 0) {
            Some((t, end)) => r matches Ok((rest, found)) && found@ == t && rest@ == s@.skip(end),
            None => r matches Err(e) && e == (ParseError { position: 0 }),
        },
{
    let input = chars_of(s);
    match scan_token(&input, 0) {
        Some((t, end)) => Ok((s.substring_char(end, input.len()), t)),
        None => Err(ParseError { position: 0 }),
    }
}

/// Reads a quantifier at the start of `s` and hands back the rest.
pub fn term_suffix<'a>(s: &'a str) -> (r: Result<(&'a str, TermSuffix), ParseError>)
    ensures
        match grammar::term_suffix(s@, 0) {
            Some((suffix, end)) => r matches Ok((rest, found)) && found == suffix && rest@
                == s@.skip(end),
            None => r == Err::<(&str, TermSuffix), ParseError>(ParseError { position: 0 }),
        },
{
    let input = chars_of(s);
    match scan_term_suffix(&input, 0) {
        Some((suffix, end)) => Ok((s.substring_char(end, input.len()), suffix)),
        None => Err(ParseError { position: 0 }),
    }
}

/// Reads a factor at the start of `s` and hands back the rest.
pub fn factor<'a>(s: &'a str) -> (r: Result<(&'a str, Factor), ParseError>)
    ensures
        match grammar::factor(s@, 0) {
            Some((f, end)) => r matches Ok((rest, found)) && found@ == f && rest@ == s@.skip(end),
            None => r matches Err(e) && e == (ParseError { position: 0 }),
        },
{
    let input = chars_of(s);
    match scan_factor(&input, 0) {
        Some((f, end)) => Ok((s.substring_char(end, input.len()), f)),
        None => Err(ParseError { position: 0 }),
    }
}

/// Reads a term at the start of `s` and hands back the rest.
pub fn term<'a>(s: &'a str) -> (r: Result<(&'a str, Term), ParseError>)
    ensures
        match grammar::term(s@, 0) {
            Some((t, end)) => r matches Ok((rest, found)) && found@ == t && rest@ == s@.skip(end),
            None => r matches Err(e) && e == (ParseError { position: 0 }),
        },
{
    let input = chars_of(s);
    match scan_term(&input, 0) {
        Some((t, end)) => Ok((s.substring_char(end, input.len()), t)),
        None => Err(ParseError { position: 0 }),
    }
}

/// Reads a concatenation at the start of `s` and hands back the rest.
pub fn terms<'a>(s: &'a str) -> (r: Result<(&'a str, Terms), ParseError>)
    ensures
        match grammar::terms(s@, 0) {
            Some((t, end)) => r matches Ok((rest, found)) && found@ == t && rest@ == s@.skip(end),
            None => r matches Err(e) && e == (ParseError { position: 0 }),
        },
{
    let input = chars_of(s);
    match scan_terms(&input, 0) {
        Some((t, end)) => Ok((s.substring_char(end, input.len()), t)),
        None => Err(ParseError { position: 0 }),
    }
}

/// Reads an alternation at the start of `s` and hands back the rest.
pub fn expression<'a>(s: &'a str) -> (r: Result<(&'a str, Expression), ParseError>)
    ensures
        match grammar::expression(s@, 0) {
            Some((e, end)) => r matches Ok((rest, found)) && found@ == e && found@.well_formed()
                && rest@ == s@.skip(end),
            None => r matches Err(e) && e == (ParseError { position: 0 }),
        },
{
    let input = chars_of(s);
    match scan_expression(&input, 0) {
        Some((e, end)) => Ok((s.substring_char(end, input.len()), e)),
        None => Err(ParseError { position: 0 }),
    }
}

/// Whether `r` is the reading of the text `pattern`: the tree that the
/// grammar gives for the whole text, which is well formed, or the position
/// up to which the text could be read.
pub open spec fn reads(pattern: Seq<char>, r: Result<Expression, ParseError>) -> bool {
    match grammar::pattern(pattern) {
        Ok(e) => r matches Ok(found) && found@ == e && found@.well_formed(),
        Err(position) => r matches Err(e) && e.position == position,
    }
}

/// Reads a whole pattern.
///
/// A text that is no expression, or that goes on behind the expression at
/// its start, is refused.
pub fn parse(pattern: &str) -> (r: Result<Expression, ParseError>)
    ensures
        reads(pattern@, r),
{
    let input = chars_of(pattern);
    match scan_expression(&input, 0) {
        Some((e, end)) => {
            if end == input.len() {
                Ok(e)
            } else {
                Err(ParseError { position: end })
            }
        },
        None => Err(ParseError { position: 0 }),
    }
}

} // verus!

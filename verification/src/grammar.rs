//! The grammar of patterns, as functions on a sequence of characters.
//!
//! Each function reads one construct at a position and gives what it read
//! together with the position behind it, or `None` where the construct does
//! not stand there. Choices are ordered and repetitions greedy, so every
//! text has at most one reading.
//!
//! ```text
//! expression    := terms ('|' terms)*
//! terms         := term+
//! term          := factor suffix?
//! factor        := '(' expression ')' | '<' expression '>' | token
//! token         := '[' class_element+ ']' | literal
//! class_element := char '-' char | literal
//! literal       := '\' any | any but a reserved character
//! suffix        := '?' | '*' | '+' | '{' n '}' | '{' n ',' '}' | '{' n ',' m '}'
//! ```
use crate::model::{
    ClassElement, ExpressionModel, FactorModel, Literal, TermModel, TermSuffix, TermsModel,
    TokenModel,
};
use vstd::prelude::*;

verus! {

/// The characters that stand for themselves only behind a backslash.
pub open spec fn is_reserved(c: char) -> bool {
    c == '[' || c == ']' || c == '(' || c == ')' || c == '<' || c == '>' || c == '{' || c == '}'
        || c == '?' || c == '*' || c == '+' || c == '|'
}

/// An ASCII decimal digit.
pub open spec fn is_digit(c: char) -> bool {
    '0' <= c <= '9'
}

/// Whether the character `c` stands at `pos`.
pub open spec fn at(s: Seq<char>, pos: int, c: char) -> bool {
    0 <= pos < s.len() && s[pos] == c
}

/// A backslash with the character behind it, or one character that is not
/// reserved.
pub open spec fn literal(s: Seq<char>, pos: int) -> Option<(Literal, int)> {
    if !(0 <= pos < s.len()) {
        None
    } else if s[pos] == '\\' {
        if pos + 1 < s.len() {
            Some((Literal::Escape(s[pos + 1]), pos + 2))
        } else {
            None
        }
    } else if is_reserved(s[pos]) {
        None
    } else {
        Some((Literal::Char(s[pos]), pos + 1))
    }
}

/// A member of a class.
///
/// A plain character other than the hyphen, a hyphen and a second plain
/// character make a range, which must not run backwards. Where no plain
/// character follows the hyphen, the first character stands alone and the
/// hyphen is left for the next member.
pub open spec fn class_element(s: Seq<char>, pos: int) -> Option<(ClassElement, int)> {
    match literal(s, pos) {
        None => None,
        Some((Literal::Escape(c), end)) => Some((ClassElement::Literal(Literal::Escape(c)), end)),
        Some((Literal::Char(low), end)) => {
            let alone = Some((ClassElement::Literal(Literal::Char(low)), end));
            if low != '-' && at(s, end, '-') {
                match literal(s, end + 1) {
                    Some((Literal::Char(high), behind)) => if low as u32 <= high as u32 {
                        Some((ClassElement::Range(low, high), behind))
                    } else {
                        None
                    },
                    _ => alone,
                }
            } else {
                alone
            }
        },
    }
}

/// The members that stand one after the other from `pos` on, added to
/// `found`, and the position behind the last of them.
pub open spec fn class_elements(s: Seq<char>, pos: int, found: Seq<ClassElement>) -> (
    Seq<ClassElement>,
    int,
)
    decreases s.len() - pos,
{
    match class_element(s, pos) {
        Some((e, end)) => if pos < end <= s.len() {
            class_elements(s, end, found.push(e))
        } else {
            (found, pos)
        },
        None => (found, pos),
    }
}

/// A class: at least one member between square brackets.
pub open spec fn class(s: Seq<char>, pos: int) -> Option<(TokenModel, int)> {
    if at(s, pos, '[') {
        let (elements, end) = class_elements(s, pos + 1, Seq::empty());
        if elements.len() > 0 && at(s, end, ']') {
            Some((TokenModel::Class(elements), end + 1))
        } else {
            None
        }
    } else {
        None
    }
}

/// A class or a literal.
pub open spec fn token(s: Seq<char>, pos: int) -> Option<(TokenModel, int)> {
    match class(s, pos) {
        Some(found) => Some(found),
        None => match literal(s, pos) {
            Some((l, end)) => Some((TokenModel::Literal(l), end)),
            None => None,
        },
    }
}

/// The position behind the digits that stand from `pos` on.
pub open spec fn digits_end(s: Seq<char>, pos: int) -> int
    decreases s.len() - pos,
{
    if 0 <= pos < s.len() && is_digit(s[pos]) {
        digits_end(s, pos + 1)
    } else {
        pos
    }
}

/// The number that the digits from `from` up to `to` write in base ten.
pub open spec fn digits_value(s: Seq<char>, from: int, to: int) -> nat
    decreases to - from,
{
    if to <= from {
        0
    } else {
        digits_value(s, from, to - 1) * 10 + (s[to - 1] as u32 - '0' as u32) as nat
    }
}

/// A count: one digit or more, which write a number that a `usize` holds.
pub open spec fn number(s: Seq<char>, pos: int) -> Option<(usize, int)> {
    let end = digits_end(s, pos);
    if pos < end && digits_value(s, pos, end) <= usize::MAX {
        Some((digits_value(s, pos, end) as usize, end))
    } else {
        None
    }
}

/// What stands between the braces of a quantifier, and the closing brace:
/// a count; a count and a comma; or two counts in order around a comma.
pub open spec fn braced(s: Seq<char>, pos: int) -> Option<(TermSuffix, int)> {
    match number(s, pos) {
        None => None,
        Some((min, end)) => if at(s, end, '}') {
            Some((TermSuffix::Repeat(min), end + 1))
        } else if at(s, end, ',') {
            if at(s, end + 1, '}') {
                Some((TermSuffix::OpenRange(min), end + 2))
            } else {
                match number(s, end + 1) {
                    Some((max, behind)) => if at(s, behind, '}') && min <= max {
                        Some((TermSuffix::Range(min, max), behind + 1))
                    } else {
                        None
                    },
                    None => None,
                }
            }
        } else {
            None
        },
    }
}

/// A quantifier.
pub open spec fn term_suffix(s: Seq<char>, pos: int) -> Option<(TermSuffix, int)> {
    if at(s, pos, '?') {
        Some((TermSuffix::Question, pos + 1))
    } else if at(s, pos, '*') {
        Some((TermSuffix::Asterisk, pos + 1))
    } else if at(s, pos, '+') {
        Some((TermSuffix::Plus, pos + 1))
    } else if at(s, pos, '{') {
        braced(s, pos + 1)
    } else {
        None
    }
}

/// An expression between round or angle brackets, or a token.
pub open spec fn factor(s: Seq<char>, pos: int) -> Option<(FactorModel, int)>
    decreases s.len() - pos, 0nat,
{
    if at(s, pos, '(') {
        match expression(s, pos + 1) {
            Some((e, end)) => if at(s, end, ')') {
                Some((FactorModel::Group(e), end + 1))
            } else {
                None
            },
            None => None,
        }
    } else if at(s, pos, '<') {
        match expression(s, pos + 1) {
            Some((e, end)) => if at(s, end, '>') {
                Some((FactorModel::FixedGroup(e), end + 1))
            } else {
                None
            },
            None => None,
        }
    } else {
        match token(s, pos) {
            Some((t, end)) => Some((FactorModel::Token(t), end)),
            None => None,
        }
    }
}

/// A factor, with the quantifier behind it where one stands there.
pub open spec fn term(s: Seq<char>, pos: int) -> Option<(TermModel, int)>
    decreases s.len() - pos, 1nat,
{
    match factor(s, pos) {
        None => None,
        Some((f, end)) => match term_suffix(s, end) {
            Some((suffix, behind)) => Some((TermModel::WithSuffix(f, suffix), behind)),
            None => Some((TermModel::Factor(f), end)),
        },
    }
}

/// The terms that stand one after the other from `pos` on, added to `found`,
/// and the position behind the last of them.
pub open spec fn term_list(s: Seq<char>, pos: int, found: Seq<TermModel>) -> (Seq<TermModel>, int)
    decreases s.len() - pos, 2nat,
{
    match term(s, pos) {
        Some((t, end)) => if pos < end <= s.len() {
            term_list(s, end, found.push(t))
        } else {
            (found, pos)
        },
        None => (found, pos),
    }
}

/// A concatenation: one term or more.
pub open spec fn terms(s: Seq<char>, pos: int) -> Option<(TermsModel, int)>
    decreases s.len() - pos, 3nat,
{
    let (list, end) = term_list(s, pos, Seq::empty());
    if list.len() > 0 {
        Some((TermsModel::Concat(list), end))
    } else {
        None
    }
}

/// The concatenations that follow from `pos` on, each behind a bar, added
/// to `found`, and the position behind the last of them. A bar that no
/// concatenation follows is not read.
pub open spec fn branch_list(s: Seq<char>, pos: int, found: Seq<TermsModel>) -> (
    Seq<TermsModel>,
    int,
)
    decreases s.len() - pos, 4nat,
{
    if at(s, pos, '|') {
        match terms(s, pos + 1) {
            Some((t, end)) => if pos < end <= s.len() {
                branch_list(s, end, found.push(t))
            } else {
                (found, pos)
            },
            None => (found, pos),
        }
    } else {
        (found, pos)
    }
}

/// An alternation: concatenations with bars between them.
pub open spec fn expression(s: Seq<char>, pos: int) -> Option<(ExpressionModel, int)>
    decreases s.len() - pos, 5nat,
{
    match terms(s, pos) {
        Some((first, end)) => if pos <= end <= s.len() {
            let (branches, behind) = branch_list(s, end, seq![first]);
            Some((ExpressionModel::Union(branches), behind))
        } else {
            None
        },
        None => None,
    }
}

/// The reading of a whole text: the expression that stands at its start,
/// where that expression ends with the text. Otherwise the position up to
/// which the text could be read.
pub open spec fn pattern(s: Seq<char>) -> Result<ExpressionModel, int> {
    match expression(s, 0) {
        Some((e, end)) => if end == s.len() {
            Ok(e)
        } else {
            Err(end)
        },
        None => Err(0),
    }
}

} // verus!

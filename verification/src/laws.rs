//! What holds of reading and drawing together.
use crate::generator::{
    branches_produce, each_produced, frozen, is_alphanumeric, produced_in_order, repeats,
    repeats_some, resampled, Generate, GenerationError, DIGIT_MARKER, WORD_MARKER,
};
use crate::grammar;
use crate::model::{
    ClassElement, Expression, ExpressionModel, FactorModel, Literal, TermModel, TermSuffix,
    TermsModel, TokenModel,
};
use crate::parser::{reads, ParseError};
use crate::text::repeated;
use vstd::prelude::*;

verus! {

/// A well-formed token can be sampled, and its class is not empty.
pub proof fn lemma_token_sound(t: TokenModel)
    requires
        t.well_formed(),
    ensures
        t.samplable(),
        !t.can_raise(GenerationError::EmptyClass),
{
}

/// A well-formed factor can be sampled, and no class in it is empty.
pub proof fn lemma_factor_sound(f: FactorModel)
    requires
        f.well_formed(),
    ensures
        f.samplable(),
        !f.can_raise(GenerationError::EmptyClass),
    decreases f,
{
    match f {
        FactorModel::Token(t) => lemma_token_sound(t),
        FactorModel::Group(e) => lemma_expression_sound(e),
        FactorModel::FixedGroup(e) => lemma_expression_sound(e),
    }
}

/// A well-formed term can be sampled, and no class in it is empty.
pub proof fn lemma_term_sound(t: TermModel)
    requires
        t.well_formed(),
    ensures
        t.samplable(),
        !t.can_raise(GenerationError::EmptyClass),
    decreases t,
{
    match t {
        TermModel::Factor(f) => lemma_factor_sound(f),
        TermModel::WithSuffix(f, _) => lemma_factor_sound(f),
    }
}

/// A well-formed concatenation can be sampled, and no class in it is empty.
pub proof fn lemma_terms_sound(t: TermsModel)
    requires
        t.well_formed(),
    ensures
        t.samplable(),
        !t.can_raise(GenerationError::EmptyClass),
    decreases t,
{
    match t {
        TermsModel::Concat(terms) => {
            assert forall|i: int| 0 <= i < terms.len() implies (#[trigger] terms[i]).samplable()
                && !terms[i].can_raise(GenerationError::EmptyClass) by {
                lemma_term_sound(terms[i]);
            }
        },
    }
}

/// Every tree that keeps the invariant of the syntax can be sampled, and
/// sampling it never reports an empty class.
pub proof fn lemma_expression_sound(e: ExpressionModel)
    requires
        e.well_formed(),
    ensures
        e.samplable(),
        !e.can_raise(GenerationError::EmptyClass),
    decreases e,
{
    match e {
        ExpressionModel::Union(branches) => {
            assert forall|i: int|
                0 <= i < branches.len() implies (#[trigger] branches[i]).samplable()
                && !branches[i].can_raise(GenerationError::EmptyClass) by {
                lemma_terms_sound(branches[i]);
            }
        },
    }
}

/// Reading is a function of the text: two readings of one text are both
/// trees, and then the same tree, or both refusals at the same position.
pub proof fn lemma_parse_idempotent(
    pattern: Seq<char>,
    first: Result<Expression, ParseError>,
    second: Result<Expression, ParseError>,
)
    requires
        reads(pattern, first),
        reads(pattern, second),
    ensures
        match (first, second) {
            (Ok(a), Ok(b)) => a@ == b@,
            (Err(a), Err(b)) => a == b,
            _ => false,
        },
{
}

/// The tree of a pattern that is the one character `c`.
pub open spec fn single_character(c: char) -> ExpressionModel {
    ExpressionModel::Union(
        seq![
            TermsModel::Concat(
                seq![TermModel::Factor(FactorModel::Token(TokenModel::Literal(Literal::Char(c))))],
            ),
        ],
    )
}

/// A pattern that is one character, neither reserved nor the backslash,
/// reads as the tree of that character, from which drawing cannot fail and
/// gives the one-character string of that character and no other.
pub proof fn lemma_single_character(c: char)
    requires
        is_plain(c),
    ensures
        grammar::pattern(seq![c]) == Ok::<ExpressionModel, int>(single_character(c)),
        single_character(c).well_formed(),
        single_character(c).infallible(),
        forall|s: Seq<char>| single_character(c).produces(s) <==> s == seq![c],
{
    let text = seq![c];
    let l = Literal::Char(c);
    let t = TermModel::Factor(FactorModel::Token(TokenModel::Literal(l)));
    let e = single_character(c);
    reveal_with_fuel(grammar::term_list, 3);
    reveal_with_fuel(grammar::term, 3);
    reveal_with_fuel(grammar::factor, 3);
    assert(grammar::literal(text, 0) == Some((l, 1int)));
    assert(grammar::class(text, 0).is_none());
    assert(grammar::factor(text, 0) == Some((FactorModel::Token(TokenModel::Literal(l)), 1int)));
    assert(grammar::term_suffix(text, 1).is_none());
    assert(grammar::term(text, 0) == Some((t, 1int)));
    assert(grammar::literal(text, 1).is_none());
    assert(grammar::class(text, 1).is_none());
    assert(grammar::term(text, 1).is_none());
    assert(Seq::<TermModel>::empty().push(t) =~= seq![t]);
    assert(grammar::term_list(text, 0, Seq::empty()) == (seq![t], 1int));
    assert(grammar::terms(text, 0) == Some((TermsModel::Concat(seq![t]), 1int)));
    assert(grammar::expression(text, 0) == Some((e, 1int)));

    assert forall|err: GenerationError| !e.can_raise(err) by {
        assert(!t.can_raise(err));
    }
    assert forall|s: Seq<char>| e.produces(s) <==> s == seq![c] by {
        let branches = seq![TermsModel::Concat(seq![t])];
        if e.produces(s) {
            let i = choose|i: int| 0 <= i < branches.len() && (#[trigger] branches[i]).produces(s);
            assert(branches[i] == TermsModel::Concat(seq![t]));
            let parts = choose|parts: Seq<Seq<char>>|
                produced_in_order(seq![t], parts) && s == #[trigger] parts.flatten();
            assert(seq![t][0].produces(parts[0]));
            assert(l.emits(parts[0][0]));
            let draw = choose|draw: int|
                0 <= draw < l.weight() && #[trigger] l.symbol_at(draw) == Ok::<
                    char,
                    GenerationError,
                >(parts[0][0]);
            assert(parts[0] =~= seq![c]);
            parts.lemma_flatten_one_element();
            assert(parts.first() == parts[0]);
        }
        if s == seq![c] {
            let parts = seq![s];
            assert(l.symbol_at(0) == Ok::<char, GenerationError>(c));
            assert(l.emits(s[0]));
            assert(t.produces(s));
            assert(produced_in_order(seq![t], parts));
            parts.lemma_flatten_one_element();
            assert(parts.first() == s);
            assert(branches[0].produces(s));
            assert(branches_produce(branches, s));
        }
    }
}

/// Whether `c` can stand in a pattern for itself: it is neither reserved nor
/// the backslash.
pub open spec fn is_plain(c: char) -> bool {
    !grammar::is_reserved(c) && c != '\\'
}

/// A pattern that is a class of one range which runs backwards is refused.
pub proof fn lemma_backward_range_refused(low: char, high: char)
    requires
        is_plain(low),
        is_plain(high),
        low != '-',
        low as u32 > high as u32,
    ensures
        grammar::pattern(seq!['[', low, '-', high, ']']).is_err(),
{
    let text = seq!['[', low, '-', high, ']'];
    assert(grammar::literal(text, 0).is_none());
    assert(grammar::literal(text, 1) == Some((Literal::Char(low), 2int)));
    assert(grammar::literal(text, 3) == Some((Literal::Char(high), 4int)));
    assert(grammar::class_element(text, 1).is_none());
    assert(grammar::class_elements(text, 1, Seq::empty()) == (Seq::<ClassElement>::empty(), 1int));
    assert(grammar::class(text, 0).is_none());
    assert(grammar::token(text, 0).is_none());
    assert(grammar::factor(text, 0).is_none());
    assert(grammar::term(text, 0).is_none());
    assert(grammar::term_list(text, 0, Seq::empty()) == (Seq::<TermModel>::empty(), 0int));
    assert(grammar::terms(text, 0).is_none());
    assert(grammar::expression(text, 0).is_none());
}

/// Strings that are all the same join to that string, repeated.
pub proof fn lemma_flatten_constant(parts: Seq<Seq<char>>, x: Seq<char>)
    requires
        forall|i: int| 0 <= i < parts.len() ==> parts[i] == x,
    ensures
        parts.flatten() == repeated(x, parts.len()),
    decreases parts.len(),
{
    if parts.len() > 0 {
        let front = parts.drop_last();
        lemma_flatten_constant(front, x);
        front.lemma_flatten_push(parts.last());
        assert(front.push(parts.last()) =~= parts);
    }
}

/// The term that is the plain character `c` under the quantifier `suffix`.
pub open spec fn quantified_character(c: char, suffix: TermSuffix) -> TermModel {
    TermModel::WithSuffix(FactorModel::Token(TokenModel::Literal(Literal::Char(c))), suffix)
}

/// A character under a quantifier gives the runs of that character whose
/// length the quantifier admits, and nothing else.
pub proof fn lemma_quantified_character(c: char, suffix: TermSuffix, s: Seq<char>)
    ensures
        quantified_character(c, suffix).produces(s) <==> exists|n: nat|
            suffix.allows(n) && s == #[trigger] repeated(seq![c], n),
{
    let l = Literal::Char(c);
    let f = FactorModel::Token(TokenModel::Literal(l));
    let one = seq![c];
    if quantified_character(c, suffix).produces(s) {
        let count = choose|count: nat| #[trigger] suffix.allows(count) && repeats(f, count, s);
        let parts = choose|parts: Seq<Seq<char>>|
            parts.len() == count && each_produced(f, parts) && s == #[trigger] parts.flatten();
        assert forall|i: int| 0 <= i < parts.len() implies parts[i] == one by {
            assert(f.produces(parts[i]));
            assert(l.emits(parts[i][0]));
            assert(parts[i] =~= one);
        }
        lemma_flatten_constant(parts, one);
        assert(s == repeated(one, count));
    }
    if exists|n: nat| suffix.allows(n) && s == #[trigger] repeated(one, n) {
        let n = choose|n: nat| suffix.allows(n) && s == #[trigger] repeated(one, n);
        let parts = Seq::new(n, |i: int| one);
        assert(l.symbol_at(0) == Ok::<char, GenerationError>(c));
        assert(l.emits(one[0]));
        assert(f.produces(one));
        assert(each_produced(f, parts));
        lemma_flatten_constant(parts, one);
        assert(resampled(f, n, s));
        assert(repeats(f, n, s));
        assert(repeats_some(f, suffix, s));
    }
}

/// A character under an exact count gives that many of it, and nothing else.
pub proof fn lemma_exact_repeat(c: char, count: usize, s: Seq<char>)
    ensures
        quantified_character(c, TermSuffix::Repeat(count)).produces(s) <==> s == repeated(
            seq![c],
            count as nat,
        ),
{
    lemma_quantified_character(c, TermSuffix::Repeat(count), s);
    if s == repeated(seq![c], count as nat) {
        assert(TermSuffix::Repeat(count).allows(count as nat));
    }
}

/// A character under a bounded quantifier gives at least `min` and at most
/// `max` of it, each number between them included, and nothing else.
pub proof fn lemma_bounded_repeat(c: char, min: usize, max: usize, s: Seq<char>)
    ensures
        quantified_character(c, TermSuffix::Range(min, max)).produces(s) <==> exists|n: nat|
            min <= n <= max && s == #[trigger] repeated(seq![c], n),
{
    lemma_quantified_character(c, TermSuffix::Range(min, max), s);
    if exists|n: nat| min <= n <= max && s == #[trigger] repeated(seq![c], n) {
        let n = choose|n: nat| min <= n <= max && s == #[trigger] repeated(seq![c], n);
        assert(TermSuffix::Range(min, max).allows(n));
    }
}

/// A fixed group under a quantifier gives one sample of its expression,
/// repeated as often as the quantifier admits, and nothing else: never two
/// different samples side by side.
pub proof fn lemma_fixed_group_is_frozen(e: ExpressionModel, suffix: TermSuffix, s: Seq<char>)
    ensures
        TermModel::WithSuffix(FactorModel::FixedGroup(e), suffix).produces(s) <==> exists|
            base: Seq<char>,
            n: nat,
        |
            e.produces(base) && suffix.allows(n) && s == #[trigger] repeated(base, n),
{
    let f = FactorModel::FixedGroup(e);
    if TermModel::WithSuffix(f, suffix).produces(s) {
        let count = choose|count: nat| #[trigger] suffix.allows(count) && repeats(f, count, s);
        let base = choose|base: Seq<char>|
            f.produces(base) && s == #[trigger] repeated(base, count);
        assert(e.produces(base) && suffix.allows(count) && s == repeated(base, count));
    }
    if exists|base: Seq<char>, n: nat|
        e.produces(base) && suffix.allows(n) && s == #[trigger] repeated(base, n) {
        let (base, n) = choose|base: Seq<char>, n: nat|
            e.produces(base) && suffix.allows(n) && s == #[trigger] repeated(base, n);
        assert(f.produces(base));
        assert(frozen(f, n, s));
        assert(repeats(f, n, s));
        assert(repeats_some(f, suffix, s));
    }
}

/// The digit escape gives the ten ASCII digits, and nothing else.
pub proof fn lemma_digit_escape(c: char)
    ensures
        Literal::Escape(DIGIT_MARKER).emits(c) <==> '0' <= c <= '9',
{
    let l = Literal::Escape(DIGIT_MARKER);
    if '0' <= c <= '9' {
        let draw = c as int - '0' as int;
        assert(l.symbol_at(draw) == Ok::<char, GenerationError>(c));
    }
}

/// The word escape gives the ASCII letters, the ASCII digits and the
/// underscore, and nothing else.
pub proof fn lemma_word_escape(c: char)
    ensures
        Literal::Escape(WORD_MARKER).emits(c) <==> (is_alphanumeric(c) || c == '_'),
{
    let l = Literal::Escape(WORD_MARKER);
    if 'a' <= c <= 'z' {
        assert(l.symbol_at(c as int - 'a' as int) == Ok::<char, GenerationError>(c));
    } else if 'A' <= c <= 'Z' {
        assert(l.symbol_at(c as int - 'A' as int + 26) == Ok::<char, GenerationError>(c));
    } else if '0' <= c <= '9' {
        assert(l.symbol_at(c as int - '0' as int + 52) == Ok::<char, GenerationError>(c));
    } else if c == '_' {
        assert(l.symbol_at(62) == Ok::<char, GenerationError>(c));
    }
}

} // verus!

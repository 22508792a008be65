//! Drawing a string from a pattern.
use crate::model::{
    branch_models, elements_well_formed, term_models, ClassElement, Expression, ExpressionModel,
    Factor, FactorModel, Literal, Term, TermModel, TermSuffix, Terms, TermsModel, Token,
    TokenModel,
};
use crate::random::{draw_inclusive, flip};
use crate::text::{character_after, is_scalar, repeat, repeated, single};
use rand::rngs::StdRng;
use vstd::prelude::*;
use vstd::string::StringExecFns;

verus! {

/// Why no string could be drawn.
#[derive(Debug, Clone, Copy, PartialEq, Eq)]
pub enum GenerationError {
    /// A letter or digit other than the two markers stood behind a backslash.
    InvalidEscape,
    /// The code point drawn from a range belongs to no character.
    InvalidCodepoint,
    /// A class without elements.
    EmptyClass,
}

/// A part of a pattern, from which a string can be drawn.
pub trait Generate {
    /// What drawing asks of the part: that its ranges are in order and that
    /// there is a branch wherever one is chosen.
    spec fn samplable(&self) -> bool;

    /// Whether `s` is among the strings that the part can give.
    spec fn produces(&self, s: Seq<char>) -> bool;

    /// Whether drawing from the part can end in the error `e`.
    spec fn can_raise(&self, e: GenerationError) -> bool;

    /// Draws a string from the random source.
    ///
    /// On success the string is one that the part can give. An error is one
    /// that the part can raise, so a part that can raise none always gives a
    /// string.
    fn generate(&self, rng: &mut StdRng) -> (r: Result<String, GenerationError>)
        requires
            self.samplable(),
        ensures
            match r {
                Ok(s) => self.produces(s@),
                Err(e) => self.can_raise(e),
            },
    ;
}

/// The escape that stands for a decimal digit.
pub const DIGIT_MARKER: char = 'd';

/// The escape that stands for a letter, a digit or an underscore.
pub const WORD_MARKER: char = 'w';

/// The number of symbols that the digit escape chooses from.
pub const DIGIT_SYMBOLS: usize = 10;

/// The number of symbols that the word escape chooses from.
pub const WORD_SYMBOLS: usize = 63;

/// An ASCII letter or digit.
pub open spec fn is_alphanumeric(c: char) -> bool {
    'a' <= c <= 'z' || 'A' <= c <= 'Z' || '0' <= c <= '9'
}

/// The `index`-th decimal digit.
pub open spec fn digit_symbol(index: int) -> char {
    ('0' as int + index) as char
}

/// The `index`-th symbol of the alphabet of the word escape: the lower-case
/// letters, the upper-case letters, the digits, then the underscore.
pub open spec fn word_symbol(index: int) -> char {
    if index < 26 {
        ('a' as int + index) as char
    } else if index < 52 {
        ('A' as int + index - 26) as char
    } else if index < 62 {
        ('0' as int + index - 52) as char
    } else {
        '_'
    }
}

impl Literal {
    /// An escaped letter or digit that is neither marker: nothing can be
    /// drawn from it.
    pub open spec fn invalid(self) -> bool {
        match self {
            Literal::Char(_) => false,
            Literal::Escape(c) => is_alphanumeric(c) && c != DIGIT_MARKER && c != WORD_MARKER,
        }
    }

    /// The number of symbols that the literal chooses from, which is its
    /// weight within a class.
    pub open spec fn weight(self) -> nat {
        match self {
            Literal::Escape(c) if c == DIGIT_MARKER => DIGIT_SYMBOLS as nat,
            Literal::Escape(c) if c == WORD_MARKER => WORD_SYMBOLS as nat,
            _ => 1,
        }
    }

    /// The character that the literal gives for the number `draw`, which is
    /// below its weight.
    pub open spec fn symbol_at(self, draw: int) -> Result<char, GenerationError> {
        match self {
            Literal::Char(c) => Ok(c),
            Literal::Escape(c) => if c == DIGIT_MARKER {
                Ok(digit_symbol(draw))
            } else if c == WORD_MARKER {
                Ok(word_symbol(draw))
            } else if is_alphanumeric(c) {
                Err(GenerationError::InvalidEscape)
            } else {
                Ok(c)
            },
        }
    }

    /// Whether `c` is among the characters that the literal can give.
    pub open spec fn emits(self, c: char) -> bool {
        exists|draw: int|
            0 <= draw < self.weight() && #[trigger] self.symbol_at(draw) == Ok::<
                char,
                GenerationError,
            >(c)
    }

    /// The weight of the literal.
    pub fn size(&self) -> (n: usize)
        ensures
            n == self.weight(),
    {
        match *self {
            Literal::Escape(c) => if c == DIGIT_MARKER {
                DIGIT_SYMBOLS
            } else if c == WORD_MARKER {
                WORD_SYMBOLS
            } else {
                1
            },
            Literal::Char(_) => 1,
        }
    }

    /// The character that the literal gives for the number `draw`.
    pub fn symbol(&self, draw: usize) -> (r: Result<char, GenerationError>)
        requires
            draw < self.weight(),
        ensures
            r == self.symbol_at(draw as int),
    {
        match *self {
            Literal::Char(c) => Ok(c),
            Literal::Escape(c) => {
                if c == DIGIT_MARKER {
                    Ok(character_after('0', draw as u32))
                } else if c == WORD_MARKER {
                    if draw < 26 {
                        Ok(character_after('a', draw as u32))
                    } else if draw < 52 {
                        Ok(character_after('A', (draw - 26) as u32))
                    } else if draw < 62 {
                        Ok(character_after('0', (draw - 52) as u32))
                    } else {
                        Ok('_')
                    }
                } else if ('a' <= c && c <= 'z') || ('A' <= c && c <= 'Z') || ('0' <= c && c
                    <= '9') {
                    Err(GenerationError::InvalidEscape)
                } else {
                    Ok(c)
                }
            },
        }
    }
}

/// The character with the code point `code`.
///
/// A number that is a surrogate, or above the last code point, belongs to no
/// character and is refused.
pub fn scalar(code: usize) -> (r: Result<char, GenerationError>)
    ensures
        r == if is_scalar(code as int) {
            Ok::<char, GenerationError>(code as char)
        } else {
            Err::<char, GenerationError>(GenerationError::InvalidCodepoint)
        },
{
    if code > 0x10FFFF {
        return Err(GenerationError::InvalidCodepoint);
    }
    match char::from_u32(code as u32) {
        Some(c) => Ok(c),
        None => Err(GenerationError::InvalidCodepoint),
    }
}

impl ClassElement {
    /// The share of the element in the choice among the elements of its
    /// class: for a range the number of its code points, for a literal the
    /// number of symbols it chooses from.
    pub open spec fn weight(self) -> nat {
        match self {
            ClassElement::Range(low, high) => if low as u32 <= high as u32 {
                (high as u32 - low as u32 + 1) as nat
            } else {
                0
            },
            ClassElement::Literal(l) => l.weight(),
        }
    }

    /// Whether `c` is among the characters that the element can give.
    pub open spec fn emits(self, c: char) -> bool {
        match self {
            ClassElement::Range(low, high) => low as u32 <= c as u32 <= high as u32,
            ClassElement::Literal(l) => l.emits(c),
        }
    }

    /// The weight of the element.
    pub fn size(&self) -> (n: usize)
        requires
            self.well_formed(),
        ensures
            n == self.weight(),
            1 <= n <= 0x110000,
    {
        match *self {
            ClassElement::Range(low, high) => (high as usize) - (low as usize) + 1,
            ClassElement::Literal(l) => l.size(),
        }
    }
}

/// Some element of the sequence can give the character `c`.
pub open spec fn elements_emit(elements: Seq<ClassElement>, c: char) -> bool {
    exists|i: int| 0 <= i < elements.len() && (#[trigger] elements[i]).emits(c)
}

/// Drawing from some element of the sequence can end in the error `e`.
pub open spec fn elements_can_raise(elements: Seq<ClassElement>, e: GenerationError) -> bool {
    exists|i: int| 0 <= i < elements.len() && (#[trigger] elements[i]).can_raise(e)
}

/// The sum of the weights of the elements.
pub open spec fn total_weight(elements: Seq<ClassElement>) -> nat
    decreases elements.len(),
{
    if elements.len() == 0 {
        0
    } else {
        total_weight(elements.drop_last()) + elements.last().weight()
    }
}

/// Each well-formed element weighs at least one, so the total is no less
/// than the number of elements, and a prefix weighs no more than the whole.
pub proof fn lemma_total_weight_bounds(elements: Seq<ClassElement>, k: int)
    requires
        elements_well_formed(elements),
        0 <= k <= elements.len(),
    ensures
        total_weight(elements) >= elements.len(),
        total_weight(elements.take(k)) <= total_weight(elements),
    decreases elements.len(),
{
    if elements.len() > 0 {
        let front = elements.drop_last();
        assert(elements.last().well_formed());
        if k == elements.len() {
            assert(elements.take(k) =~= elements);
            lemma_total_weight_bounds(front, 0);
        } else {
            lemma_total_weight_bounds(front, k);
            assert(front.take(k) =~= elements.take(k));
        }
    } else {
        assert(elements.take(k) =~= elements);
    }
}

/// The total weight of a class, or the largest `usize` where the total is
/// above it.
pub fn class_weight(elements: &Vec<ClassElement>) -> (total: usize)
    requires
        elements_well_formed(elements@),
    ensures
        total == if total_weight(elements@) <= usize::MAX {
            total_weight(elements@)
        } else {
            usize::MAX as nat
        },
{
    let mut total: usize = 0;
    let mut i: usize = 0;
    while i < elements.len()
        invariant
            i <= elements.len(),
            elements_well_formed(elements@),
            total == if total_weight(elements@.take(i as int)) <= usize::MAX {
                total_weight(elements@.take(i as int))
            } else {
                usize::MAX as nat
            },
        decreases elements.len() - i,
    {
        let n = elements[i].size();
        proof {
            assert(elements@.take(i + 1).drop_last() =~= elements@.take(i as int));
        }
        total = total.saturating_add(n);
        i += 1;
    }
    proof {
        assert(elements@.take(elements.len() as int) =~= elements@);
    }
    total
}

/// The index of the element that the number `r` falls on, when the elements
/// are laid side by side in their order, each as wide as its weight.
pub fn pick(elements: &Vec<ClassElement>, r: usize) -> (index: usize)
    requires
        elements_well_formed(elements@),
        r < total_weight(elements@),
    ensures
        index < elements.len(),
        total_weight(elements@.take(index as int)) <= r < total_weight(
            elements@.take(index as int),
        ) + elements[index as int].weight(),
{
    let mut index: usize = 0;
    let mut rest: usize = r;
    proof {
        assert(elements@.take(elements.len() as int) =~= elements@);
    }
    loop
        invariant
            elements_well_formed(elements@),
            r < total_weight(elements@),
            index < elements.len(),
            rest + total_weight(elements@.take(index as int)) == r,
        decreases elements.len() - index,
    {
        let n = elements[index].size();
        proof {
            assert(elements@.take(index + 1).drop_last() =~= elements@.take(index as int));
        }
        if rest < n {
            return index;
        }
        rest -= n;
        index += 1;
        proof {
            assert(elements@.take(elements.len() as int) =~= elements@);
        }
    }
}

impl TokenModel {
    /// Whether `s` is among the strings that the token can give: one
    /// character, of the literal or of some element of the class.
    pub open spec fn produces(self, s: Seq<char>) -> bool {
        &&& s.len() == 1
        &&& match self {
            TokenModel::Literal(l) => l.emits(s[0]),
            TokenModel::Class(elements) => elements_emit(elements, s[0]),
        }
    }

    /// Whether drawing from the token can end in the error `e`.
    pub open spec fn can_raise(self, e: GenerationError) -> bool {
        match self {
            TokenModel::Literal(l) => l.can_raise(e),
            TokenModel::Class(elements) => {
                ||| e == GenerationError::EmptyClass && elements.len() == 0
                ||| elements_can_raise(elements, e)
            },
        }
    }
}

impl FactorModel {
    /// Whether `s` is among the strings that the factor can give.
    pub open spec fn produces(self, s: Seq<char>) -> bool
        decreases self, 0nat,
    {
        match self {
            FactorModel::Token(t) => t.produces(s),
            FactorModel::Group(e) => e.produces(s),
            FactorModel::FixedGroup(e) => e.produces(s),
        }
    }

    /// Whether drawing from the factor can end in the error `e`.
    pub open spec fn can_raise(self, e: GenerationError) -> bool
        decreases self,
    {
        match self {
            FactorModel::Token(t) => t.can_raise(e),
            FactorModel::Group(x) => x.can_raise(e),
            FactorModel::FixedGroup(x) => x.can_raise(e),
        }
    }
}

/// `s` is `count` strings in a row, each of which the factor can give.
pub open spec fn resampled(f: FactorModel, count: nat, s: Seq<char>) -> bool
    decreases f, 2nat,
{
    exists|parts: Seq<Seq<char>>|
        parts.len() == count && each_produced(f, parts) && s == #[trigger] parts.flatten()
}

/// The factor can give each of the strings.
pub open spec fn each_produced(f: FactorModel, parts: Seq<Seq<char>>) -> bool
    decreases f, 1nat,
{
    forall|i: int| 0 <= i < parts.len() ==> f.produces(#[trigger] parts[i])
}

/// `s` is one string that the factor can give, written `count` times.
pub open spec fn frozen(f: FactorModel, count: nat, s: Seq<char>) -> bool
    decreases f, 1nat,
{
    exists|base: Seq<char>| f.produces(base) && s == #[trigger] repeated(base, count)
}

/// `s` is what `count` repetitions of the factor can give: of one sample for
/// a fixed group, of a sample drawn anew each time for any other factor.
pub open spec fn repeats(f: FactorModel, count: nat, s: Seq<char>) -> bool
    decreases f, 3nat,
{
    if f is FixedGroup {
        frozen(f, count, s)
    } else {
        resampled(f, count, s)
    }
}

/// `s` is what some number of repetitions that the quantifier admits can
/// give.
pub open spec fn repeats_some(f: FactorModel, suffix: TermSuffix, s: Seq<char>) -> bool
    decreases f, 4nat,
{
    exists|count: nat| #[trigger] suffix.allows(count) && repeats(f, count, s)
}

impl TermModel {
    /// Whether `s` is among the strings that the term can give.
    ///
    /// Under a quantifier it is some admitted number of repetitions: of one
    /// sample for a fixed group, of a sample drawn anew each time for any
    /// other factor.
    pub open spec fn produces(self, s: Seq<char>) -> bool
        decreases self, 0nat,
    {
        match self {
            TermModel::Factor(f) => f.produces(s),
            TermModel::WithSuffix(f, suffix) => repeats_some(f, suffix, s),
        }
    }

    /// Whether drawing from the term can end in the error `e`.
    pub open spec fn can_raise(self, e: GenerationError) -> bool
        decreases self,
    {
        match self {
            TermModel::Factor(f) => f.can_raise(e),
            TermModel::WithSuffix(f, _) => f.can_raise(e),
        }
    }
}

/// The strings, in order, are given by the terms, in order.
pub open spec fn produced_in_order(terms: Seq<TermModel>, parts: Seq<Seq<char>>) -> bool
    decreases terms, 0nat,
{
    &&& parts.len() == terms.len()
    &&& forall|i: int| 0 <= i < terms.len() ==> (#[trigger] terms[i]).produces(parts[i])
}

/// Drawing from some term of the sequence can end in the error `e`.
pub open spec fn terms_can_raise(terms: Seq<TermModel>, e: GenerationError) -> bool
    decreases terms,
{
    exists|i: int| 0 <= i < terms.len() && (#[trigger] terms[i]).can_raise(e)
}

impl TermsModel {
    /// Whether `s` is among the strings that the concatenation can give:
    /// one string of each term, joined in the order of the terms.
    pub open spec fn produces(self, s: Seq<char>) -> bool
        decreases self, 0nat,
    {
        match self {
            TermsModel::Concat(terms) => exists|parts: Seq<Seq<char>>|
                produced_in_order(terms, parts) && s == #[trigger] parts.flatten(),
        }
    }

    /// Whether drawing from the concatenation can end in the error `e`.
    pub open spec fn can_raise(self, e: GenerationError) -> bool
        decreases self,
    {
        match self {
            TermsModel::Concat(terms) => terms_can_raise(terms, e),
        }
    }
}

/// Some branch of the sequence can give `s`.
pub open spec fn branches_produce(branches: Seq<TermsModel>, s: Seq<char>) -> bool
    decreases branches, 0nat,
{
    exists|i: int| 0 <= i < branches.len() && (#[trigger] branches[i]).produces(s)
}

/// Drawing from some branch of the sequence can end in the error `e`.
pub open spec fn branches_can_raise(branches: Seq<TermsModel>, e: GenerationError) -> bool
    decreases branches,
{
    exists|i: int| 0 <= i < branches.len() && (#[trigger] branches[i]).can_raise(e)
}

impl ExpressionModel {
    /// Whether `s` is among the strings that the pattern describes.
    pub open spec fn produces(self, s: Seq<char>) -> bool
        decreases self, 0nat,
    {
        match self {
            ExpressionModel::Union(branches) => branches_produce(branches, s),
        }
    }

    /// Whether drawing from the pattern can end in the error `e`: some
    /// literal, range or class in it gives rise to it.
    pub open spec fn can_raise(self, e: GenerationError) -> bool
        decreases self,
    {
        match self {
            ExpressionModel::Union(branches) => branches_can_raise(branches, e),
        }
    }

    /// Drawing from the pattern cannot fail.
    pub open spec fn infallible(self) -> bool {
        forall|e: GenerationError| !self.can_raise(e)
    }
}

/// The count that follows `n` when the coin has shown `heads`: one more, or
/// none where the coin shows tails or `n` is the largest `usize`.
pub fn after_flip(n: usize, heads: bool) -> (next: Option<usize>)
    ensures
        next == if heads && n < usize::MAX {
            Some((n + 1) as usize)
        } else {
            None
        },
{
    if heads && n < usize::MAX {
        Some(n + 1)
    } else {
        None
    }
}

/// Counts up from `start`, one for each time that a fair coin shows heads,
/// until it shows tails or the largest `usize` is reached.
pub fn grow(start: usize, rng: &mut StdRng) -> (n: usize)
    ensures
        start <= n,
{
    let mut n = start;
    loop
        invariant
            start <= n,
        decreases usize::MAX - n,
    {
        match after_flip(n, flip(rng, 1, 2)) {
            Some(next) => {
                n = next;
            },
            None => {
                return n;
            },
        }
    }
}

impl TermSuffix {
    /// Draws how often the factor is repeated.
    pub fn count(&self, rng: &mut StdRng) -> (n: usize)
        requires
            self.well_formed(),
        ensures
            self.allows(n as nat),
    {
        match *self {
            TermSuffix::Question => draw_inclusive(rng, 0, 1),
            TermSuffix::Asterisk => grow(0, rng),
            TermSuffix::Plus => grow(1, rng),
            TermSuffix::Range(min, max) => draw_inclusive(rng, min, max),
            TermSuffix::OpenRange(min) => grow(min, rng),
            TermSuffix::Repeat(count) => count,
        }
    }
}

impl Factor {

    /// Draws `count` strings of the factor, one after the other, and joins
    /// them.
    pub fn generate_times(&self, count: usize, rng: &mut StdRng) -> (r: Result<
        String,
        GenerationError,
    >)
        requires
            self@.samplable(),
        ensures
            match r {
                Ok(s) => resampled(self@, count as nat, s@),
                Err(e) => self@.can_raise(e),
            },
        decreases self, 1nat,
    {
        let mut out = String::new();
        let ghost mut parts: Seq<Seq<char>> = Seq::empty();
        let mut done: usize = 0;
        while done < count
            invariant
                done <= count,
                self@.samplable(),
                parts.len() == done,
                each_produced(self@, parts),
                out@ == parts.flatten(),
            decreases count - done,
        {
            match self.generate(rng) {
                Ok(piece) => {
                    out.append(piece.as_str());
                    proof {
                        parts.lemma_flatten_push(piece@);
                        parts = parts.push(piece@);
                    }
                },
                Err(e) => {
                    return Err(e);
                },
            }
            done += 1;
        }
        Ok(out)
    }
}

impl Generate for Literal {
    open spec fn samplable(&self) -> bool {
        true
    }

    open spec fn produces(&self, s: Seq<char>) -> bool {
        s.len() == 1 && self.emits(s[0])
    }

    open spec fn can_raise(&self, e: GenerationError) -> bool {
        e == GenerationError::InvalidEscape && self.invalid()
    }

    /// Draws the one-character string of the literal.
    ///
    /// A plain character and an escaped sign come out as they are, without a
    /// draw; a marker gives one symbol of its alphabet.
    fn generate(&self, rng: &mut StdRng) -> (r: Result<String, GenerationError>)
        ensures
            match r {
                Ok(s) => s@.len() == 1 && self.emits(s@[0]),
                Err(e) => self.can_raise(e),
            },
            r.is_err() <==> self.invalid(),
    {
        let n = self.size();
        let draw = if n > 1 {
            draw_inclusive(rng, 0, n - 1)
        } else {
            0
        };
        match self.symbol(draw) {
            Ok(c) => Ok(single(c)),
            Err(e) => Err(e),
        }
    }
}

impl Generate for ClassElement {
    open spec fn samplable(&self) -> bool {
        self.well_formed()
    }

    open spec fn produces(&self, s: Seq<char>) -> bool {
        s.len() == 1 && self.emits(s[0])
    }

    /// A range that reaches across the surrogates can give a code point of
    /// no character.
    open spec fn can_raise(&self, e: GenerationError) -> bool {
        match *self {
            ClassElement::Range(low, high) => e == GenerationError::InvalidCodepoint
                && (low as u32) < 0xD800 && 0xDFFF < high as u32,
            ClassElement::Literal(l) => l.can_raise(e),
        }
    }

    /// Draws the one-character string of the element: for a range a code
    /// point between its ends, both included.
    fn generate(&self, rng: &mut StdRng) -> (r: Result<String, GenerationError>)
        ensures
            match r {
                Ok(s) => s@.len() == 1 && self.emits(s@[0]),
                Err(e) => self.can_raise(e),
            },
    {
        match *self {
            ClassElement::Range(low, high) => {
                let code = draw_inclusive(rng, low as usize, high as usize);
                match scalar(code) {
                    Ok(c) => Ok(single(c)),
                    Err(e) => Err(e),
                }
            },
            ClassElement::Literal(l) => l.generate(rng),
        }
    }
}

impl Generate for Token {
    open spec fn samplable(&self) -> bool {
        self@.samplable()
    }

    open spec fn produces(&self, s: Seq<char>) -> bool {
        self@.produces(s)
    }

    open spec fn can_raise(&self, e: GenerationError) -> bool {
        self@.can_raise(e)
    }

    /// Draws the one-character string of the token.
    ///
    /// In a class, a first draw below the total weight chooses the element,
    /// which then draws its character.
    fn generate(&self, rng: &mut StdRng) -> (r: Result<String, GenerationError>)
        ensures
            match r {
                Ok(s) => self@.produces(s@),
                Err(e) => self@.can_raise(e),
            },
    {
        match self {
            Token::Literal(l) => l.generate(rng),
            Token::Class(elements) => {
                assert(self@ == TokenModel::Class(elements@));
                let total = class_weight(elements);
                proof {
                    lemma_total_weight_bounds(elements@, 0);
                }
                if total == 0 {
                    return Err(GenerationError::EmptyClass);
                }
                let r = draw_inclusive(rng, 0, total - 1);
                let index = pick(elements, r);
                elements[index].generate(rng)
            },
        }
    }
}

impl Generate for Factor {
    open spec fn samplable(&self) -> bool {
        self@.samplable()
    }

    open spec fn produces(&self, s: Seq<char>) -> bool {
        self@.produces(s)
    }

    open spec fn can_raise(&self, e: GenerationError) -> bool {
        self@.can_raise(e)
    }

    /// Draws a string of the factor. A group of either kind hands on to its
    /// expression.
    fn generate(&self, rng: &mut StdRng) -> (r: Result<String, GenerationError>)
        ensures
            match r {
                Ok(s) => self@.produces(s@),
                Err(e) => self@.can_raise(e),
            },
        decreases self, 0nat,
    {
        match self {
            Factor::Token(t) => t.generate(rng),
            Factor::Group(e) => e.generate(rng),
            Factor::FixedGroup(e) => e.generate(rng),
        }
    }
}

impl Generate for Term {
    open spec fn samplable(&self) -> bool {
        self@.samplable()
    }

    open spec fn produces(&self, s: Seq<char>) -> bool {
        self@.produces(s)
    }

    open spec fn can_raise(&self, e: GenerationError) -> bool {
        self@.can_raise(e)
    }

    /// Draws a string of the term.
    ///
    /// Under a quantifier the number of repetitions is drawn first. A fixed
    /// group is then sampled once and its string repeated; any other factor
    /// is sampled once per repetition.
    fn generate(&self, rng: &mut StdRng) -> (r: Result<String, GenerationError>)
        ensures
            match r {
                Ok(s) => self@.produces(s@),
                Err(e) => self@.can_raise(e),
            },
        decreases self, 2nat,
    {
        match self {
            Term::Factor(f) => f.generate(rng),
            Term::WithSuffix(f, suffix) => {
                let count = suffix.count(rng);
                match f {
                    Factor::FixedGroup(_) => {
                        match f.generate(rng) {
                            Ok(base) => {
                                let s = repeat(base.as_str(), count);
                                proof {
                                    assert(frozen(f@, count as nat, s@));
                                    assert(suffix.allows(count as nat));
                                    assert(repeats(f@, count as nat, s@));
                                }
                                Ok(s)
                            },
                            Err(e) => Err(e),
                        }
                    },
                    _ => {
                        let r = f.generate_times(count, rng);
                        proof {
                            if r.is_ok() {
                                assert(suffix.allows(count as nat));
                                assert(repeats(f@, count as nat, r.unwrap()@));
                            }
                        }
                        r
                    },
                }
            },
        }
    }
}

impl Generate for Terms {
    open spec fn samplable(&self) -> bool {
        self@.samplable()
    }

    open spec fn produces(&self, s: Seq<char>) -> bool {
        self@.produces(s)
    }

    open spec fn can_raise(&self, e: GenerationError) -> bool {
        self@.can_raise(e)
    }

    /// Draws a string of each term, from left to right, and joins them in
    /// that order. The first error ends the walk.
    fn generate(&self, rng: &mut StdRng) -> (r: Result<String, GenerationError>)
        ensures
            match r {
                Ok(s) => self@.produces(s@),
                Err(e) => self@.can_raise(e),
            },
        decreases self, 0nat,
    {
        match self {
            Terms::Concat(terms) => {
                let mut out = String::new();
                let ghost mut parts: Seq<Seq<char>> = Seq::empty();
                let mut i: usize = 0;
                while i < terms.len()
                    invariant
                        i <= terms.len(),
                        self@ == TermsModel::Concat(term_models(terms@)),
                        self@.samplable(),
                        *self == Terms::Concat(*terms),
                        produced_in_order(term_models(terms@).take(i as int), parts),
                        out@ == parts.flatten(),
                    decreases terms.len() - i,
                {
                    assert(term_models(terms@)[i as int].samplable());
                    match terms[i].generate(rng) {
                        Ok(piece) => {
                            out.append(piece.as_str());
                            proof {
                                parts.lemma_flatten_push(piece@);
                                parts = parts.push(piece@);
                                assert(term_models(terms@).take(i + 1) =~= term_models(
                                    terms@,
                                ).take(i as int).push(terms[i as int]@));
                            }
                        },
                        Err(e) => {
                            assert(term_models(terms@)[i as int].can_raise(e));
                            return Err(e);
                        },
                    }
                    i += 1;
                }
                proof {
                    assert(term_models(terms@).take(i as int) =~= term_models(terms@));
                }
                Ok(out)
            },
        }
    }
}

impl Generate for Expression {
    open spec fn samplable(&self) -> bool {
        self@.samplable()
    }

    open spec fn produces(&self, s: Seq<char>) -> bool {
        self@.produces(s)
    }

    open spec fn can_raise(&self, e: GenerationError) -> bool {
        self@.can_raise(e)
    }

    /// Draws a string that the pattern describes.
    ///
    /// One branch is chosen, each with the same chance, and only that branch
    /// is sampled. On success the string is one that the pattern describes;
    /// an error is one that some part of the pattern gives rise to, so a
    /// pattern without such parts always gives a string.
    fn generate(&self, rng: &mut StdRng) -> (r: Result<String, GenerationError>)
        ensures
            match r {
                Ok(s) => self@.produces(s@),
                Err(e) => self@.can_raise(e),
            },
            self@.infallible() ==> r.is_ok(),
        decreases self, 0nat,
    {
        match self {
            Expression::Union(branches) => {
                let chosen = draw_inclusive(rng, 0, branches.len() - 1);
                assert(branch_models(branches@)[chosen as int].samplable());
                let r = branches[chosen].generate(rng);
                proof {
                    if r.is_ok() {
                        assert(branch_models(branches@)[chosen as int].produces(r.unwrap()@));
                    } else {
                        assert(branch_models(branches@)[chosen as int].can_raise(
                            r.unwrap_err(),
                        ));
                        assert(self@.can_raise(r.unwrap_err()));
                    }
                }
                r
            },
        }
    }
}

} // verus!

//! The syntax tree of a pattern.
//!
//! The executable tree owns its children in `Vec`s and `Box`es. Contracts speak
//! of its mathematical counterpart, in which every `Vec` is a `Seq`; the view
//! (`@`) of an executable node is that counterpart.
use vstd::prelude::*;

verus! {

/// One concrete character, or the character that stood right after a backslash.
#[derive(Debug, Clone, Copy, PartialEq, Eq)]
pub enum Literal {
    Char(char),
    Escape(char),
}

/// One member of a bracketed character class.
#[derive(Debug, Clone, Copy, PartialEq, Eq)]
pub enum ClassElement {
    Range(char, char),
    Literal(Literal),
}

/// A single generative unit: a literal or a character class.
#[derive(Debug, PartialEq, Eq)]
pub enum Token {
    Literal(Literal),
    Class(Vec<ClassElement>),
}

/// A token, a group that is sampled afresh on every repetition, or a group
/// whose one sample is reused by the quantifier around it.
#[derive(Debug, PartialEq, Eq)]
pub enum Factor {
    Token(Token),
    Group(Box<Expression>),
    FixedGroup(Box<Expression>),
}

/// A factor, with or without a quantifier.
#[derive(Debug, PartialEq, Eq)]
pub enum Term {
    Factor(Factor),
    WithSuffix(Factor, TermSuffix),
}

/// How often a factor is repeated.
#[derive(Debug, Clone, Copy, PartialEq, Eq)]
pub enum TermSuffix {
    Question,
    Asterisk,
    Plus,
    Range(usize, usize),
    OpenRange(usize),
    Repeat(usize),
}

/// Terms in the order in which their outputs are joined.
#[derive(Debug, PartialEq, Eq)]
pub enum Terms {
    Concat(Vec<Term>),
}

/// Alternatives, of which one is chosen per sample.
#[derive(Debug, PartialEq, Eq)]
pub enum Expression {
    Union(Vec<Terms>),
}

/// Mathematical counterpart of [`Token`].
pub enum TokenModel {
    Literal(Literal),
    Class(Seq<ClassElement>),
}

/// Mathematical counterpart of [`Factor`].
pub enum FactorModel {
    Token(TokenModel),
    Group(ExpressionModel),
    FixedGroup(ExpressionModel),
}

/// Mathematical counterpart of [`Term`].
pub enum TermModel {
    Factor(FactorModel),
    WithSuffix(FactorModel, TermSuffix),
}

/// Mathematical counterpart of [`Terms`].
pub enum TermsModel {
    Concat(Seq<TermModel>),
}

/// Mathematical counterpart of [`Expression`].
pub enum ExpressionModel {
    Union(Seq<TermsModel>),
}

/// The model of a factor.
pub open spec fn factor_model(f: Factor) -> FactorModel
    decreases f,
{
    match f {
        Factor::Token(t) => FactorModel::Token(t@),
        Factor::Group(e) => FactorModel::Group(expression_model(*e)),
        Factor::FixedGroup(e) => FactorModel::FixedGroup(expression_model(*e)),
    }
}

/// The model of a term.
pub open spec fn term_model(t: Term) -> TermModel
    decreases t,
{
    match t {
        Term::Factor(f) => TermModel::Factor(factor_model(f)),
        Term::WithSuffix(f, suffix) => TermModel::WithSuffix(factor_model(f), suffix),
    }
}

/// The models of the terms of a sequence, in order.
pub open spec fn term_models(v: Seq<Term>) -> Seq<TermModel>
    decreases v,
{
    Seq::new(
        v.len(),
        |i: int|
            if 0 <= i < v.len() {
                term_model(v[i])
            } else {
                arbitrary()
            },
    )
}

/// The model of a concatenation.
pub open spec fn terms_model(t: Terms) -> TermsModel
    decreases t,
{
    match t {
        Terms::Concat(v) => TermsModel::Concat(term_models(v@)),
    }
}

/// The models of the branches of a sequence, in order.
pub open spec fn branch_models(v: Seq<Terms>) -> Seq<TermsModel>
    decreases v,
{
    Seq::new(
        v.len(),
        |i: int|
            if 0 <= i < v.len() {
                terms_model(v[i])
            } else {
                arbitrary()
            },
    )
}

/// The model of an expression.
pub open spec fn expression_model(e: Expression) -> ExpressionModel
    decreases e,
{
    match e {
        Expression::Union(v) => ExpressionModel::Union(branch_models(v@)),
    }
}

impl View for Token {
    type V = TokenModel;

    open spec fn view(&self) -> TokenModel {
        match *self {
            Token::Literal(l) => TokenModel::Literal(l),
            Token::Class(v) => TokenModel::Class(v@),
        }
    }
}

impl View for Factor {
    type V = FactorModel;

    open spec fn view(&self) -> FactorModel {
        factor_model(*self)
    }
}

impl View for Term {
    type V = TermModel;

    open spec fn view(&self) -> TermModel {
        term_model(*self)
    }
}

impl View for Terms {
    type V = TermsModel;

    open spec fn view(&self) -> TermsModel {
        terms_model(*self)
    }
}

impl View for Expression {
    type V = ExpressionModel;

    open spec fn view(&self) -> ExpressionModel {
        expression_model(*self)
    }
}

impl Clone for Token {
    fn clone(&self) -> (r: Self)
        ensures
            r@ == self@,
    {
        match self {
            Token::Literal(l) => Token::Literal(*l),
            Token::Class(elements) => {
                let mut copy: Vec<ClassElement> = Vec::new();
                let mut i: usize = 0;
                while i < elements.len()
                    invariant
                        i <= elements.len(),
                        copy@ == elements@.take(i as int),
                    decreases elements.len() - i,
                {
                    copy.push(elements[i]);
                    proof {
                        assert(elements@.take(i + 1) =~= elements@.take(i as int).push(
                            elements[i as int],
                        ));
                    }
                    i += 1;
                }
                proof {
                    assert(elements@.take(elements.len() as int) =~= elements@);
                }
                Token::Class(copy)
            },
        }
    }
}

impl Factor {
    /// A copy of the value, with the same model.
    fn duplicate(&self) -> (r: Self)
        ensures
            r@ == self@,
        decreases self,
    {
        match self {
            Factor::Token(t) => Factor::Token(t.clone()),
            Factor::Group(e) => {
                let inner: &Expression = e;
                Factor::Group(Box::new(inner.duplicate()))
            },
            Factor::FixedGroup(e) => {
                let inner: &Expression = e;
                Factor::FixedGroup(Box::new(inner.duplicate()))
            },
        }
    }
}

impl Term {
    /// A copy of the value, with the same model.
    fn duplicate(&self) -> (r: Self)
        ensures
            r@ == self@,
        decreases self,
    {
        match self {
            Term::Factor(f) => Term::Factor(f.duplicate()),
            Term::WithSuffix(f, suffix) => Term::WithSuffix(f.duplicate(), *suffix),
        }
    }
}

impl Terms {
    /// A copy of the value, with the same model.
    fn duplicate(&self) -> (r: Self)
        ensures
            r@ == self@,
        decreases self,
    {
        match self {
            Terms::Concat(terms) => {
                let mut copy: Vec<Term> = Vec::new();
                let mut i: usize = 0;
                while i < terms.len()
                    invariant
                        i <= terms.len(),
                        *self == Terms::Concat(*terms),
                        term_models(copy@) == term_models(terms@).take(i as int),
                    decreases terms.len() - i,
                {
                    assert(*self matches Terms::Concat(inner) && inner == *terms);
                    let t = terms[i].duplicate();
                    proof {
                        assert(term_models(copy@.push(t)) =~= term_models(copy@).push(t@));
                        assert(term_models(terms@).take(i + 1) =~= term_models(terms@).take(
                            i as int,
                        ).push(t@));
                    }
                    copy.push(t);
                    i += 1;
                }
                proof {
                    assert(term_models(terms@).take(terms.len() as int) =~= term_models(terms@));
                }
                Terms::Concat(copy)
            },
        }
    }
}

impl Expression {
    /// A copy of the value, with the same model.
    fn duplicate(&self) -> (r: Self)
        ensures
            r@ == self@,
        decreases self,
    {
        match self {
            Expression::Union(branches) => {
                let mut copy: Vec<Terms> = Vec::new();
                let mut i: usize = 0;
                while i < branches.len()
                    invariant
                        i <= branches.len(),
                        *self == Expression::Union(*branches),
                        branch_models(copy@) == branch_models(branches@).take(i as int),
                    decreases branches.len() - i,
                {
                    assert(*self matches Expression::Union(inner) && inner == *branches);
                    let t = branches[i].duplicate();
                    proof {
                        assert(branch_models(copy@.push(t)) =~= branch_models(copy@).push(t@));
                        assert(branch_models(branches@).take(i + 1) =~= branch_models(
                            branches@,
                        ).take(i as int).push(t@));
                    }
                    copy.push(t);
                    i += 1;
                }
                proof {
                    assert(branch_models(branches@).take(branches.len() as int) =~= branch_models(
                        branches@,
                    ));
                }
                Expression::Union(copy)
            },
        }
    }
}

impl Clone for Factor {
    fn clone(&self) -> (r: Self)
        ensures
            r@ == self@,
    {
        self.duplicate()
    }
}

impl Clone for Term {
    fn clone(&self) -> (r: Self)
        ensures
            r@ == self@,
    {
        self.duplicate()
    }
}

impl Clone for Terms {
    fn clone(&self) -> (r: Self)
        ensures
            r@ == self@,
    {
        self.duplicate()
    }
}

impl Clone for Expression {
    fn clone(&self) -> (r: Self)
        ensures
            r@ == self@,
    {
        self.duplicate()
    }
}

impl ClassElement {
    /// A range runs from a character to one that is not below it.
    pub open spec fn well_formed(self) -> bool {
        match self {
            ClassElement::Range(low, high) => low as u32 <= high as u32,
            ClassElement::Literal(_) => true,
        }
    }
}

/// Every element of the sequence is well formed.
pub open spec fn elements_well_formed(elements: Seq<ClassElement>) -> bool {
    forall|i: int| 0 <= i < elements.len() ==> (#[trigger] elements[i]).well_formed()
}

impl TermSuffix {
    /// A bounded repetition has its bounds in order.
    pub open spec fn well_formed(self) -> bool {
        match self {
            TermSuffix::Range(min, max) => min <= max,
            _ => true,
        }
    }

    /// Whether the quantifier admits `n` repetitions.
    pub open spec fn allows(self, n: nat) -> bool {
        match self {
            TermSuffix::Question => n <= 1,
            TermSuffix::Asterisk => true,
            TermSuffix::Plus => n >= 1,
            TermSuffix::Range(min, max) => min <= n <= max,
            TermSuffix::OpenRange(min) => min <= n,
            TermSuffix::Repeat(count) => n == count,
        }
    }
}

impl TokenModel {
    /// Every range of the class is in order. A sample can be drawn from such
    /// a token, though drawing from an empty class reports an error.
    pub open spec fn samplable(self) -> bool {
        match self {
            TokenModel::Literal(_) => true,
            TokenModel::Class(elements) => elements_well_formed(elements),
        }
    }

    /// Samplable, and a class has at least one element.
    pub open spec fn well_formed(self) -> bool {
        match self {
            TokenModel::Literal(_) => true,
            TokenModel::Class(elements) => elements.len() > 0 && elements_well_formed(elements),
        }
    }
}

impl FactorModel {
    /// The token, or the expression of the group, is samplable.
    pub open spec fn samplable(self) -> bool
        decreases self,
    {
        match self {
            FactorModel::Token(t) => t.samplable(),
            FactorModel::Group(e) => e.samplable(),
            FactorModel::FixedGroup(e) => e.samplable(),
        }
    }

    /// The token, or the expression of the group, is well formed.
    pub open spec fn well_formed(self) -> bool
        decreases self,
    {
        match self {
            FactorModel::Token(t) => t.well_formed(),
            FactorModel::Group(e) => e.well_formed(),
            FactorModel::FixedGroup(e) => e.well_formed(),
        }
    }
}

impl TermModel {
    /// The factor is samplable, and the bounds of the quantifier are in order.
    pub open spec fn samplable(self) -> bool
        decreases self,
    {
        match self {
            TermModel::Factor(f) => f.samplable(),
            TermModel::WithSuffix(f, suffix) => f.samplable() && suffix.well_formed(),
        }
    }

    /// The factor is well formed, and the bounds of the quantifier are in
    /// order.
    pub open spec fn well_formed(self) -> bool
        decreases self,
    {
        match self {
            TermModel::Factor(f) => f.well_formed(),
            TermModel::WithSuffix(f, suffix) => f.well_formed() && suffix.well_formed(),
        }
    }
}

/// Every term of the sequence is samplable.
pub open spec fn terms_samplable(terms: Seq<TermModel>) -> bool
    decreases terms,
{
    forall|i: int| 0 <= i < terms.len() ==> (#[trigger] terms[i]).samplable()
}

/// Every term of the sequence is well formed.
pub open spec fn terms_well_formed(terms: Seq<TermModel>) -> bool
    decreases terms,
{
    forall|i: int| 0 <= i < terms.len() ==> (#[trigger] terms[i]).well_formed()
}

impl TermsModel {
    /// Every term is samplable.
    pub open spec fn samplable(self) -> bool
        decreases self,
    {
        match self {
            TermsModel::Concat(terms) => terms_samplable(terms),
        }
    }

    /// There is a term, and every term is well formed.
    pub open spec fn well_formed(self) -> bool
        decreases self,
    {
        match self {
            TermsModel::Concat(terms) => terms.len() > 0 && terms_well_formed(terms),
        }
    }
}

/// Every branch of the sequence is samplable.
pub open spec fn branches_samplable(branches: Seq<TermsModel>) -> bool
    decreases branches,
{
    forall|i: int| 0 <= i < branches.len() ==> (#[trigger] branches[i]).samplable()
}

/// Every branch of the sequence is well formed.
pub open spec fn branches_well_formed(branches: Seq<TermsModel>) -> bool
    decreases branches,
{
    forall|i: int| 0 <= i < branches.len() ==> (#[trigger] branches[i]).well_formed()
}

impl ExpressionModel {
    /// What a sample can be drawn from: there is a branch to choose wherever
    /// one is chosen, and every range of a class or of a quantifier is in
    /// order.
    pub open spec fn samplable(self) -> bool
        decreases self,
    {
        match self {
            ExpressionModel::Union(branches) => branches.len() > 0 && branches_samplable(
                branches,
            ),
        }
    }

    /// The invariant of a tree: it is samplable, and no class and no
    /// concatenation in it is empty.
    pub open spec fn well_formed(self) -> bool
        decreases self,
    {
        match self {
            ExpressionModel::Union(branches) => branches.len() > 0 && branches_well_formed(
                branches,
            ),
        }
    }
}

} // verus!

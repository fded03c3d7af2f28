use vstd::prelude::*;
use crate::dict::Dict;
use crate::expr::{mentions, simplified, substituted, Expr, ExprV};

verus! {

/// How two values are compared.
#[derive(Clone, Copy, Debug, PartialEq, Eq, Structural)]
pub enum Relation {
    Eq,
    Ne,
    Lt,
    Le,
    Gt,
    Ge,
}

/// A condition over expressions.
#[derive(Debug, PartialEq)]
pub enum Boolean {
    /// A fixed truth value.
    Lit(bool),
    /// A comparison of two expressions.
    Test(Relation, Expr, Expr),
    /// Both conditions hold.
    And(Box<Boolean>, Box<Boolean>),
    /// At least one of the conditions holds.
    Or(Box<Boolean>, Box<Boolean>),
}

pub enum BooleanV {
    Lit(bool),
    Test(Relation, ExprV, ExprV),
    And(Box<BooleanV>, Box<BooleanV>),
    Or(Box<BooleanV>, Box<BooleanV>),
}

impl Boolean {
    pub open spec fn model(&self) -> BooleanV
        decreases self,
    {
        match self {
            Boolean::Lit(b) => BooleanV::Lit(*b),
            Boolean::Test(r, a, b) => BooleanV::Test(*r, a@, b@),
            Boolean::And(a, b) => BooleanV::And(Box::new(a.model()), Box::new(b.model())),
            Boolean::Or(a, b) => BooleanV::Or(Box::new(a.model()), Box::new(b.model())),
        }
    }
}

impl Clone for Boolean {
    fn clone(&self) -> (r: Self)
        ensures
            r@ == self@,
    {
        self.dup()
    }
}

impl DeepView for Boolean {
    type V = BooleanV;

    open spec fn deep_view(&self) -> BooleanV {
        self.model()
    }
}

impl View for Boolean {
    type V = BooleanV;

    open spec fn view(&self) -> BooleanV {
        self.model()
    }
}

/// `b` with the table applied to every expression in it.
pub open spec fn substituted_bool(b: BooleanV, table: Seq<(Seq<char>, ExprV)>) -> BooleanV
    decreases b,
{
    match b {
        BooleanV::Lit(_) => b,
        BooleanV::Test(r, x, y) => BooleanV::Test(r, substituted(x, table), substituted(y, table)),
        BooleanV::And(p, q) => BooleanV::And(
            Box::new(substituted_bool(*p, table)),
            Box::new(substituted_bool(*q, table)),
        ),
        BooleanV::Or(p, q) => BooleanV::Or(
            Box::new(substituted_bool(*p, table)),
            Box::new(substituted_bool(*q, table)),
        ),
    }
}

/// `b` with every expression in it tidied.
pub open spec fn simplified_bool(b: BooleanV) -> BooleanV
    decreases b,
{
    match b {
        BooleanV::Lit(_) => b,
        BooleanV::Test(r, x, y) => BooleanV::Test(r, simplified(x), simplified(y)),
        BooleanV::And(p, q) => BooleanV::And(
            Box::new(simplified_bool(*p)),
            Box::new(simplified_bool(*q)),
        ),
        BooleanV::Or(p, q) => BooleanV::Or(
            Box::new(simplified_bool(*p)),
            Box::new(simplified_bool(*q)),
        ),
    }
}

/// Whether `b` refers to `name` anywhere.
pub open spec fn mentions_bool(b: BooleanV, name: Seq<char>) -> bool
    decreases b,
{
    match b {
        BooleanV::Lit(_) => false,
        BooleanV::Test(_, x, y) => mentions(x, name) || mentions(y, name),
        BooleanV::And(p, q) => mentions_bool(*p, name) || mentions_bool(*q, name),
        BooleanV::Or(p, q) => mentions_bool(*p, name) || mentions_bool(*q, name),
    }
}

impl Boolean {
    /// A copy.
    pub fn dup(&self) -> (r: Boolean)
        ensures
            r@ == self@,
        decreases self,
    {
        match self {
            Boolean::Lit(b) => Boolean::Lit(*b),
            Boolean::Test(r, a, b) => Boolean::Test(*r, a.dup(), b.dup()),
            Boolean::And(a, b) => Boolean::And(Box::new(a.dup()), Box::new(b.dup())),
            Boolean::Or(a, b) => Boolean::Or(Box::new(a.dup()), Box::new(b.dup())),
        }
    }

    /// Whether the two conditions are the same.
    pub fn equals(&self, other: &Boolean) -> (r: bool)
        ensures
            r == (self@ == other@),
        decreases self,
    {
        match (self, other) {
            (Boolean::Lit(a), Boolean::Lit(b)) => *a == *b,
            (Boolean::Test(r, a, b), Boolean::Test(s, c, d)) => *r == *s && a.equals(c)
                && b.equals(d),
            (Boolean::And(a, b), Boolean::And(c, d)) => a.equals(c) && b.equals(d),
            (Boolean::Or(a, b), Boolean::Or(c, d)) => a.equals(c) && b.equals(d),
            _ => false,
        }
    }

    /// The condition with the table applied to its references.
    pub fn substitute(&self, table: &Dict<Expr>) -> (r: Boolean)
        ensures
            r@ == substituted_bool(self@, table.deep_view()),
        decreases self,
    {
        match self {
            Boolean::Lit(b) => Boolean::Lit(*b),
            Boolean::Test(r, a, b) => Boolean::Test(*r, a.substitute(table), b.substitute(table)),
            Boolean::And(a, b) => Boolean::And(
                Box::new(a.substitute(table)),
                Box::new(b.substitute(table)),
            ),
            Boolean::Or(a, b) => Boolean::Or(
                Box::new(a.substitute(table)),
                Box::new(b.substitute(table)),
            ),
        }
    }

    /// The condition with its expressions in their tidy form.
    pub fn simplify(&self) -> (r: Boolean)
        ensures
            r@ == simplified_bool(self@),
        decreases self,
    {
        match self {
            Boolean::Lit(b) => Boolean::Lit(*b),
            Boolean::Test(r, a, b) => Boolean::Test(*r, a.simplify(), b.simplify()),
            Boolean::And(a, b) => Boolean::And(Box::new(a.simplify()), Box::new(b.simplify())),
            Boolean::Or(a, b) => Boolean::Or(Box::new(a.simplify()), Box::new(b.simplify())),
        }
    }
}

} // verus!

use vstd::prelude::*;
use crate::boolean::{Boolean, BooleanV};
use crate::dict::{lookup, Dict};
use crate::error::Error;
use crate::expr::{Expr, ExprV, Number, Quantity, QuantityV};
use crate::parser::{parsed_condition, parsed_expr, parsed_quantity};

verus! {

/// What the numbers of a document mean. The library does not compute with
/// numbers, so it cannot tell what a written number is worth, nor bring a
/// quantity to the base units of its dimension: whoever reads a document
/// supplies, for each number in it, its value, and for each text that gives
/// a parameter its value, the quantity in base units. A number or a text
/// that has no reading here is malformed.
#[derive(Clone, Debug, PartialEq)]
pub struct Lexicon {
    /// What each number is worth, by the way it is written.
    pub numbers: Dict<Number>,
    /// What each value of a parameter is in the base units of its dimension,
    /// by the way it is written.
    pub normalised: Dict<Quantity>,
}

pub struct LexiconV {
    pub numbers: Seq<(Seq<char>, Number)>,
    pub normalised: Seq<(Seq<char>, QuantityV)>,
}

impl DeepView for Lexicon {
    type V = LexiconV;

    open spec fn deep_view(&self) -> LexiconV {
        LexiconV { numbers: self.numbers.deep_view(), normalised: self.normalised.deep_view() }
    }
}

impl View for Lexicon {
    type V = LexiconV;

    open spec fn view(&self) -> LexiconV {
        self.deep_view()
    }
}

/// The expression that `text` spells.
pub open spec fn expr_of(lex: LexiconV, text: Seq<char>) -> Result<ExprV, Error> {
    parsed_expr(text, lex.numbers)
}

/// The condition that `text` spells.
pub open spec fn condition_of(lex: LexiconV, text: Seq<char>) -> Result<BooleanV, Error> {
    parsed_condition(text, lex.numbers)
}

/// The quantity that `text` spells, in the unit in which it is written.
pub open spec fn quantity_of(lex: LexiconV, text: Seq<char>) -> Result<QuantityV, Error> {
    parsed_quantity(text, lex.numbers)
}

/// The quantity that `text` means in base units.
pub open spec fn normalised_of(lex: LexiconV, text: Seq<char>) -> Result<QuantityV, Error> {
    match lookup(lex.normalised, text) {
        Some(e) => Ok(e),
        None => Err(Error::BadQuantity),
    }
}

impl Lexicon {
    /// The lexicon without any reading.
    pub fn new() -> (r: Self)
        ensures
            r@ == (LexiconV { numbers: Seq::empty(), normalised: Seq::empty() }),
    {
        Lexicon { numbers: Dict::new(), normalised: Dict::new() }
    }

    /// The expression that `text` spells.
    pub fn expr(&self, text: &str) -> (r: Result<Expr, Error>)
        ensures
            match r {
                Ok(e) => expr_of(self@, text@) == Ok::<ExprV, Error>(e@),
                Err(e) => expr_of(self@, text@) == Err::<ExprV, Error>(e),
            },
    {
        Expr::parse(text, &self.numbers)
    }

    /// The condition that `text` spells.
    pub fn condition(&self, text: &str) -> (r: Result<Boolean, Error>)
        ensures
            match r {
                Ok(e) => condition_of(self@, text@) == Ok::<BooleanV, Error>(e@),
                Err(e) => condition_of(self@, text@) == Err::<BooleanV, Error>(e),
            },
    {
        Boolean::parse(text, &self.numbers)
    }

    /// The quantity that `text` spells, in the unit in which it is written.
    pub fn quantity(&self, text: &str) -> (r: Result<Quantity, Error>)
        ensures
            match r {
                Ok(e) => quantity_of(self@, text@) == Ok::<QuantityV, Error>(e@),
                Err(e) => quantity_of(self@, text@) == Err::<QuantityV, Error>(e),
            },
    {
        Quantity::parse(text, &self.numbers)
    }

    /// The quantity that `text` means in base units.
    pub fn normalise(&self, text: &str) -> (r: Result<Quantity, Error>)
        ensures
            match r {
                Ok(e) => normalised_of(self@, text@) == Ok::<QuantityV, Error>(e@),
                Err(e) => normalised_of(self@, text@) == Err::<QuantityV, Error>(e),
            },
    {
        match self.normalised.get(text) {
            Some(e) => Ok(e.dup()),
            None => Err(Error::BadQuantity),
        }
    }
}

} // verus!

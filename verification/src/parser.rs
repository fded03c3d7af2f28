use vstd::prelude::*;
use crate::boolean::{Boolean, BooleanV};
use crate::dict::{lookup, Dict};
use crate::error::Error;
use crate::expr::{models, Expr, ExprV, Number, Quantity, QuantityV, MINUS_ONE_BITS, SIGN_BIT};
use crate::lexer::{tokens, tokens_of, Token, TokenV};

verus! {

/// What numbers mean as they are written.
pub type Numbers = Seq<(Seq<char>, Number)>;

/// An expression read from the tokens, and the place of the token after it.
pub type Read = Option<(ExprV, int)>;

/// The literal minus one.
pub open spec fn minus_one() -> ExprV {
    ExprV::Num(Number { bits: MINUS_ONE_BITS })
}

/// `e` with its sign turned.
pub open spec fn negated(e: ExprV) -> ExprV {
    ExprV::Mul(seq![minus_one(), e])
}

/// One over `e`.
pub open spec fn inverted(e: ExprV) -> ExprV {
    ExprV::Pow(seq![e, minus_one()])
}

/// Whether the token at `pos` is the symbol `c`.
pub open spec fn symbol_at(ts: Seq<TokenV>, pos: int, c: char) -> bool {
    0 <= pos < ts.len() && ts[pos] == TokenV::Symbol(c)
}

/// The sum of the terms, or the one term by itself.
pub open spec fn sum_or_single(acc: Seq<ExprV>) -> ExprV {
    if acc.len() == 1 {
        acc[0]
    } else {
        ExprV::Add(acc)
    }
}

/// The product of the factors, or the one factor by itself.
pub open spec fn product_or_single(acc: Seq<ExprV>) -> ExprV {
    if acc.len() == 1 {
        acc[0]
    } else {
        ExprV::Mul(acc)
    }
}

/// A number, a name, a function of arguments in brackets, or an expression
/// in brackets.
pub open spec fn parsed_atom(ts: Seq<TokenV>, pos: int, nums: Numbers) -> Read
    decreases ts.len() - pos, 1nat,
{
    if !(0 <= pos < ts.len()) {
        None
    } else {
        match ts[pos] {
            TokenV::Number(t) => match lookup(nums, t) {
                Some(n) => Some((ExprV::Num(n), pos + 1)),
                None => None,
            },
            TokenV::Name(n) => if symbol_at(ts, pos + 1, '(') {
                match parsed_args(ts, pos + 2, nums) {
                    Some((args, p)) => if symbol_at(ts, p, ')') {
                        Some((ExprV::Fun(n, args), p + 1))
                    } else {
                        None
                    },
                    None => None,
                }
            } else {
                Some((ExprV::Var(n), pos + 1))
            },
            TokenV::Symbol(c) => if c == '(' {
                match parsed_sum(ts, pos + 1, nums) {
                    Some((e, p)) => if symbol_at(ts, p, ')') {
                        Some((e, p + 1))
                    } else {
                        None
                    },
                    None => None,
                }
            } else {
                None
            },
            _ => None,
        }
    }
}

/// An atom, with any number of signs before it.
pub open spec fn parsed_unary(ts: Seq<TokenV>, pos: int, nums: Numbers) -> Read
    decreases ts.len() - pos, 2nat,
{
    if symbol_at(ts, pos, '-') {
        match parsed_unary(ts, pos + 1, nums) {
            Some((e, p)) => Some((negated(e), p)),
            None => None,
        }
    } else if symbol_at(ts, pos, '+') {
        parsed_unary(ts, pos + 1, nums)
    } else {
        parsed_atom(ts, pos, nums)
    }
}

/// A signed atom, raised to a power or not. Powers group from the right.
pub open spec fn parsed_factor(ts: Seq<TokenV>, pos: int, nums: Numbers) -> Read
    decreases ts.len() - pos, 3nat,
{
    match parsed_unary(ts, pos, nums) {
        None => None,
        Some((base, p)) => if pos < p && symbol_at(ts, p, '^') {
            match parsed_factor(ts, p + 1, nums) {
                Some((e, q)) => Some((ExprV::Pow(seq![base, e]), q)),
                None => None,
            }
        } else {
            Some((base, p))
        },
    }
}

/// The factors after the first: each follows `*`, or follows `/` and is
/// taken as one over it.
pub open spec fn term_rest(ts: Seq<TokenV>, pos: int, nums: Numbers, acc: Seq<ExprV>) -> Read
    decreases ts.len() - pos, 0nat,
{
    if symbol_at(ts, pos, '*') || symbol_at(ts, pos, '/') {
        match parsed_factor(ts, pos + 1, nums) {
            None => None,
            Some((f, p)) => if pos < p <= ts.len() {
                term_rest(
                    ts,
                    p,
                    nums,
                    acc.push(
                        if symbol_at(ts, pos, '*') {
                            f
                        } else {
                            inverted(f)
                        },
                    ),
                )
            } else {
                None
            },
        }
    } else {
        Some((product_or_single(acc), pos))
    }
}

/// Factors multiplied and divided.
pub open spec fn parsed_term(ts: Seq<TokenV>, pos: int, nums: Numbers) -> Read
    decreases ts.len() - pos, 4nat,
{
    match parsed_factor(ts, pos, nums) {
        None => None,
        Some((f, p)) => if pos < p <= ts.len() {
            term_rest(ts, p, nums, seq![f])
        } else {
            None
        },
    }
}

/// The terms after the first: each follows `+`, or follows `-` and is taken
/// with its sign turned.
pub open spec fn sum_rest(ts: Seq<TokenV>, pos: int, nums: Numbers, acc: Seq<ExprV>) -> Read
    decreases ts.len() - pos, 0nat,
{
    if symbol_at(ts, pos, '+') || symbol_at(ts, pos, '-') {
        match parsed_term(ts, pos + 1, nums) {
            None => None,
            Some((t, p)) => if pos < p <= ts.len() {
                sum_rest(
                    ts,
                    p,
                    nums,
                    acc.push(
                        if symbol_at(ts, pos, '+') {
                            t
                        } else {
                            negated(t)
                        },
                    ),
                )
            } else {
                None
            },
        }
    } else {
        Some((sum_or_single(acc), pos))
    }
}

/// Terms added and subtracted.
pub open spec fn parsed_sum(ts: Seq<TokenV>, pos: int, nums: Numbers) -> Read
    decreases ts.len() - pos, 5nat,
{
    match parsed_term(ts, pos, nums) {
        None => None,
        Some((t, p)) => if pos < p <= ts.len() {
            sum_rest(ts, p, nums, seq![t])
        } else {
            None
        },
    }
}

/// The arguments after the first, each after a comma.
pub open spec fn args_rest(ts: Seq<TokenV>, pos: int, nums: Numbers, acc: Seq<ExprV>) -> Option<
    (Seq<ExprV>, int),
>
    decreases ts.len() - pos, 0nat,
{
    if symbol_at(ts, pos, ',') {
        match parsed_sum(ts, pos + 1, nums) {
            None => None,
            Some((e, p)) => if pos < p <= ts.len() {
                args_rest(ts, p, nums, acc.push(e))
            } else {
                None
            },
        }
    } else {
        Some((acc, pos))
    }
}

/// One argument or more, with commas between them.
pub open spec fn parsed_args(ts: Seq<TokenV>, pos: int, nums: Numbers) -> Option<
    (Seq<ExprV>, int),
>
    decreases ts.len() - pos, 6nat,
{
    match parsed_sum(ts, pos, nums) {
        None => None,
        Some((e, p)) => if pos < p <= ts.len() {
            args_rest(ts, p, nums, seq![e])
        } else {
            None
        },
    }
}

/// The expression that the tokens spell, all of them.
pub open spec fn expression(ts: Seq<TokenV>, nums: Numbers) -> Option<ExprV> {
    match parsed_sum(ts, 0, nums) {
        Some((e, p)) => if p == ts.len() {
            Some(e)
        } else {
            None
        },
        None => None,
    }
}

/// The expression that a text spells. Sums and products keep their operands
/// in the order in which they are written; `a - b` is `a` and minus one
/// times `b`, and `a / b` is `a` times `b` to the power of minus one. What a
/// number means comes from `nums`; a number that is not there makes the text
/// unreadable.
#[verifier::opaque]
pub open spec fn parsed_expr(text: Seq<char>, nums: Numbers) -> Result<ExprV, Error> {
    match tokens_of(text) {
        None => Err(Error::BadExpr),
        Some(ts) => match expression(ts, nums) {
            Some(e) => Ok(e),
            None => Err(Error::BadExpr),
        },
    }
}

/// A comparison of two expressions.
pub open spec fn parsed_test(ts: Seq<TokenV>, pos: int, nums: Numbers) -> Option<(BooleanV, int)> {
    match parsed_sum(ts, pos, nums) {
        None => None,
        Some((a, p)) => if 0 <= p < ts.len() && ts[p] is Relation {
            match parsed_sum(ts, p + 1, nums) {
                Some((b, q)) => Some((BooleanV::Test(ts[p]->Relation_0, a, b), q)),
                None => None,
            }
        } else {
            None
        },
    }
}

/// The comparisons after the first, each after `.and.`.
pub open spec fn and_rest(ts: Seq<TokenV>, pos: int, nums: Numbers, acc: BooleanV) -> Option<
    (BooleanV, int),
>
    decreases ts.len() - pos,
{
    if 0 <= pos < ts.len() && ts[pos] is And {
        match parsed_test(ts, pos + 1, nums) {
            None => None,
            Some((t, p)) => if pos < p <= ts.len() {
                and_rest(ts, p, nums, BooleanV::And(Box::new(acc), Box::new(t)))
            } else {
                None
            },
        }
    } else {
        Some((acc, pos))
    }
}

/// Comparisons that all must hold.
pub open spec fn parsed_all(ts: Seq<TokenV>, pos: int, nums: Numbers) -> Option<(BooleanV, int)> {
    match parsed_test(ts, pos, nums) {
        None => None,
        Some((t, p)) => and_rest(ts, p, nums, t),
    }
}

/// The alternatives after the first, each after `.or.`.
pub open spec fn or_rest(ts: Seq<TokenV>, pos: int, nums: Numbers, acc: BooleanV) -> Option<
    (BooleanV, int),
>
    decreases ts.len() - pos,
{
    if 0 <= pos < ts.len() && ts[pos] is Or {
        match parsed_all(ts, pos + 1, nums) {
            None => None,
            Some((t, p)) => if pos < p <= ts.len() {
                or_rest(ts, p, nums, BooleanV::Or(Box::new(acc), Box::new(t)))
            } else {
                None
            },
        }
    } else {
        Some((acc, pos))
    }
}

/// Groups of comparisons of which one must hold.
pub open spec fn parsed_any(ts: Seq<TokenV>, pos: int, nums: Numbers) -> Option<(BooleanV, int)> {
    match parsed_all(ts, pos, nums) {
        None => None,
        Some((t, p)) => or_rest(ts, p, nums, t),
    }
}

/// The condition that the tokens spell, all of them: comparisons joined by
/// `.and.`, and such groups joined by `.or.`.
pub open spec fn condition(ts: Seq<TokenV>, nums: Numbers) -> Option<BooleanV> {
    match parsed_any(ts, 0, nums) {
        Some((c, q)) => if q == ts.len() {
            Some(c)
        } else {
            None
        },
        None => None,
    }
}

/// The condition that a text spells.
#[verifier::opaque]
pub open spec fn parsed_condition(text: Seq<char>, nums: Numbers) -> Result<BooleanV, Error> {
    match tokens_of(text) {
        None => Err(Error::BadExpr),
        Some(ts) => match condition(ts, nums) {
            Some(c) => Ok(c),
            None => Err(Error::BadExpr),
        },
    }
}

/// Whether the token at `pos` is the symbol `c`.
pub fn is_symbol_at(ts: &Vec<Token>, pos: usize, c: char) -> (r: bool)
    ensures
        r == symbol_at(ts.deep_view(), pos as int, c),
{
    if pos < ts.len() {
        assert(ts.deep_view()[pos as int] == ts@[pos as int]@);
        match &ts[pos] {
            Token::Symbol(d) => *d == c,
            _ => false,
        }
    } else {
        false
    }
}

fn negate(e: Expr) -> (r: Expr)
    ensures
        r@ == negated(e@),
{
    let mut v: Vec<Expr> = Vec::new();
    v.push(Expr::Num(Number::minus_one()));
    v.push(e);
    let r = Expr::Mul(v);
    proof {
        r.lemma_model();
        assert(models(v@) =~= seq![minus_one(), e@]);
    }
    r
}

fn invert(e: Expr) -> (r: Expr)
    ensures
        r@ == inverted(e@),
{
    let mut v: Vec<Expr> = Vec::new();
    v.push(e);
    v.push(Expr::Num(Number::minus_one()));
    let r = Expr::Pow(v);
    proof {
        r.lemma_model();
        assert(models(v@) =~= seq![e@, minus_one()]);
    }
    r
}

fn single(e: Expr) -> (r: Vec<Expr>)
    ensures
        models(r@) == seq![e@],
{
    let mut v: Vec<Expr> = Vec::new();
    v.push(e);
    assert(models(v@) =~= seq![e@]);
    v
}

fn sum_from(acc: Vec<Expr>) -> (r: Expr)
    ensures
        r@ == sum_or_single(models(acc@)),
{
    let mut acc = acc;
    if acc.len() == 1 {
        let ghost m = models(acc@);
        let x = acc.pop().unwrap();
        assert(x@ == m[0]);
        x
    } else {
        let r = Expr::Add(acc);
        proof {
            r.lemma_model();
        }
        r
    }
}

fn product_from(acc: Vec<Expr>) -> (r: Expr)
    ensures
        r@ == product_or_single(models(acc@)),
{
    let mut acc = acc;
    if acc.len() == 1 {
        let ghost m = models(acc@);
        let x = acc.pop().unwrap();
        assert(x@ == m[0]);
        x
    } else {
        let r = Expr::Mul(acc);
        proof {
            r.lemma_model();
        }
        r
    }
}

/// Reads an atom at `pos`.
pub fn parse_atom(ts: &Vec<Token>, pos: usize, nums: &Dict<Number>) -> (r: Option<(Expr, usize)>)
    ensures
        match r {
            Some((e, p)) => parsed_atom(ts.deep_view(), pos as int, nums.deep_view()) == Some(
                (e@, p as int),
            ) && pos < p <= ts.len(),
            None => parsed_atom(ts.deep_view(), pos as int, nums.deep_view()).is_none(),
        },
    decreases ts.len() - pos, 1nat,
{
    if pos >= ts.len() {
        return None;
    }
    assert(ts.deep_view()[pos as int] == ts@[pos as int]@);
    match &ts[pos] {
        Token::Number(t) => match nums.get(t.as_str()) {
            Some(n) => Some((Expr::Num(*n), pos + 1)),
            None => None,
        },
        Token::Name(n) => {
            if is_symbol_at(ts, pos + 1, '(') {
                match parse_args(ts, pos + 2, nums) {
                    Some((args, p)) => {
                        if is_symbol_at(ts, p, ')') {
                            let e = Expr::Fun(n.clone(), args);
                            proof {
                                e.lemma_model();
                            }
                            Some((e, p + 1))
                        } else {
                            None
                        }
                    },
                    None => None,
                }
            } else {
                Some((Expr::Var(n.clone()), pos + 1))
            }
        },
        Token::Symbol(c) => {
            if *c == '(' {
                match parse_sum(ts, pos + 1, nums) {
                    Some((e, p)) => {
                        if is_symbol_at(ts, p, ')') {
                            Some((e, p + 1))
                        } else {
                            None
                        }
                    },
                    None => None,
                }
            } else {
                None
            }
        },
        _ => None,
    }
}

/// Reads a signed atom at `pos`.
pub fn parse_unary(ts: &Vec<Token>, pos: usize, nums: &Dict<Number>) -> (r: Option<(Expr, usize)>)
    ensures
        match r {
            Some((e, p)) => parsed_unary(ts.deep_view(), pos as int, nums.deep_view()) == Some(
                (e@, p as int),
            ) && pos < p <= ts.len(),
            None => parsed_unary(ts.deep_view(), pos as int, nums.deep_view()).is_none(),
        },
    decreases ts.len() - pos, 2nat,
{
    if is_symbol_at(ts, pos, '-') {
        match parse_unary(ts, pos + 1, nums) {
            Some((e, p)) => Some((negate(e), p)),
            None => None,
        }
    } else if is_symbol_at(ts, pos, '+') {
        parse_unary(ts, pos + 1, nums)
    } else {
        parse_atom(ts, pos, nums)
    }
}

/// Reads a factor at `pos`.
pub fn parse_factor(ts: &Vec<Token>, pos: usize, nums: &Dict<Number>) -> (r: Option<(Expr, usize)>)
    ensures
        match r {
            Some((e, p)) => parsed_factor(ts.deep_view(), pos as int, nums.deep_view()) == Some(
                (e@, p as int),
            ) && pos < p <= ts.len(),
            None => parsed_factor(ts.deep_view(), pos as int, nums.deep_view()).is_none(),
        },
    decreases ts.len() - pos, 3nat,
{
    match parse_unary(ts, pos, nums) {
        None => None,
        Some((base, p)) => {
            if is_symbol_at(ts, p, '^') {
                match parse_factor(ts, p + 1, nums) {
                    Some((e, q)) => {
                        let mut v: Vec<Expr> = Vec::new();
                        let ghost b = base@;
                        let ghost x = e@;
                        v.push(base);
                        v.push(e);
                        let r = Expr::Pow(v);
                        proof {
                            r.lemma_model();
                            assert(models(v@) =~= seq![b, x]);
                        }
                        Some((r, q))
                    },
                    None => None,
                }
            } else {
                Some((base, p))
            }
        },
    }
}

/// Reads a term at `pos`.
pub fn parse_term(ts: &Vec<Token>, pos: usize, nums: &Dict<Number>) -> (r: Option<(Expr, usize)>)
    ensures
        match r {
            Some((e, p)) => parsed_term(ts.deep_view(), pos as int, nums.deep_view()) == Some(
                (e@, p as int),
            ) && pos < p <= ts.len(),
            None => parsed_term(ts.deep_view(), pos as int, nums.deep_view()).is_none(),
        },
    decreases ts.len() - pos, 4nat,
{
    let (first, start) = match parse_factor(ts, pos, nums) {
        Some(x) => x,
        None => {
            return None;
        },
    };
    let mut acc = single(first);
    let mut p = start;
    let ghost all = ts.deep_view();
    let ghost table = nums.deep_view();
    loop
        invariant
            pos < p <= ts.len(),
            all == ts.deep_view(),
            table == nums.deep_view(),
            parsed_term(all, pos as int, table) == term_rest(all, p as int, table, models(acc@)),
        decreases ts.len() - p,
    {
        let times = is_symbol_at(ts, p, '*');
        if !(times || is_symbol_at(ts, p, '/')) {
            return Some((product_from(acc), p));
        }
        match parse_factor(ts, p + 1, nums) {
            None => {
                return None;
            },
            Some((f, q)) => {
                let ghost before = models(acc@);
                let x = if times {
                    f
                } else {
                    invert(f)
                };
                let ghost xv = x@;
                acc.push(x);
                assert(models(acc@) =~= before.push(xv));
                p = q;
            },
        }
    }
}

/// Reads a sum at `pos`.
pub fn parse_sum(ts: &Vec<Token>, pos: usize, nums: &Dict<Number>) -> (r: Option<(Expr, usize)>)
    ensures
        match r {
            Some((e, p)) => parsed_sum(ts.deep_view(), pos as int, nums.deep_view()) == Some(
                (e@, p as int),
            ) && pos < p <= ts.len(),
            None => parsed_sum(ts.deep_view(), pos as int, nums.deep_view()).is_none(),
        },
    decreases ts.len() - pos, 5nat,
{
    let (first, start) = match parse_term(ts, pos, nums) {
        Some(x) => x,
        None => {
            return None;
        },
    };
    let mut acc = single(first);
    let mut p = start;
    let ghost all = ts.deep_view();
    let ghost table = nums.deep_view();
    loop
        invariant
            pos < p <= ts.len(),
            all == ts.deep_view(),
            table == nums.deep_view(),
            parsed_sum(all, pos as int, table) == sum_rest(all, p as int, table, models(acc@)),
        decreases ts.len() - p,
    {
        let plus = is_symbol_at(ts, p, '+');
        if !(plus || is_symbol_at(ts, p, '-')) {
            return Some((sum_from(acc), p));
        }
        match parse_term(ts, p + 1, nums) {
            None => {
                return None;
            },
            Some((t, q)) => {
                let ghost before = models(acc@);
                let x = if plus {
                    t
                } else {
                    negate(t)
                };
                let ghost xv = x@;
                acc.push(x);
                assert(models(acc@) =~= before.push(xv));
                p = q;
            },
        }
    }
}

/// Reads the arguments of a function at `pos`.
pub fn parse_args(ts: &Vec<Token>, pos: usize, nums: &Dict<Number>) -> (r: Option<
    (Vec<Expr>, usize),
>)
    ensures
        match r {
            Some((args, p)) => parsed_args(ts.deep_view(), pos as int, nums.deep_view()) == Some(
                (models(args@), p as int),
            ) && pos < p <= ts.len(),
            None => parsed_args(ts.deep_view(), pos as int, nums.deep_view()).is_none(),
        },
    decreases ts.len() - pos, 6nat,
{
    let (first, start) = match parse_sum(ts, pos, nums) {
        Some(x) => x,
        None => {
            return None;
        },
    };
    let mut acc = single(first);
    let mut p = start;
    let ghost all = ts.deep_view();
    let ghost table = nums.deep_view();
    loop
        invariant
            pos < p <= ts.len(),
            all == ts.deep_view(),
            table == nums.deep_view(),
            parsed_args(all, pos as int, table) == args_rest(all, p as int, table, models(acc@)),
        decreases ts.len() - p,
    {
        if !is_symbol_at(ts, p, ',') {
            return Some((acc, p));
        }
        match parse_sum(ts, p + 1, nums) {
            None => {
                return None;
            },
            Some((e, q)) => {
                let ghost before = models(acc@);
                let ghost xv = e@;
                acc.push(e);
                assert(models(acc@) =~= before.push(xv));
                p = q;
            },
        }
    }
}

/// Reads a comparison at `pos`.
pub fn parse_test(ts: &Vec<Token>, pos: usize, nums: &Dict<Number>) -> (r: Option<
    (Boolean, usize),
>)
    ensures
        match r {
            Some((c, p)) => parsed_test(ts.deep_view(), pos as int, nums.deep_view()) == Some(
                (c@, p as int),
            ) && pos < p <= ts.len(),
            None => parsed_test(ts.deep_view(), pos as int, nums.deep_view()).is_none(),
        },
{
    let (a, p) = match parse_sum(ts, pos, nums) {
        Some(x) => x,
        None => {
            return None;
        },
    };
    if p >= ts.len() {
        return None;
    }
    assert(ts.deep_view()[p as int] == ts@[p as int]@);
    match &ts[p] {
        Token::Relation(r) => match parse_sum(ts, p + 1, nums) {
            Some((b, q)) => Some((Boolean::Test(*r, a, b), q)),
            None => None,
        },
        _ => None,
    }
}

/// Reads comparisons joined by `.and.` at `pos`.
pub fn parse_all(ts: &Vec<Token>, pos: usize, nums: &Dict<Number>) -> (r: Option<(Boolean, usize)>)
    ensures
        match r {
            Some((c, p)) => parsed_all(ts.deep_view(), pos as int, nums.deep_view()) == Some(
                (c@, p as int),
            ) && pos < p <= ts.len(),
            None => parsed_all(ts.deep_view(), pos as int, nums.deep_view()).is_none(),
        },
{
    let (first, start) = match parse_test(ts, pos, nums) {
        Some(x) => x,
        None => {
            return None;
        },
    };
    let mut acc = first;
    let mut p = start;
    let ghost all = ts.deep_view();
    let ghost table = nums.deep_view();
    loop
        invariant
            pos < p <= ts.len(),
            all == ts.deep_view(),
            table == nums.deep_view(),
            parsed_all(all, pos as int, table) == and_rest(all, p as int, table, acc@),
        decreases ts.len() - p,
    {
        let more = if p < ts.len() {
            assert(all[p as int] == ts@[p as int]@);
            match &ts[p] {
                Token::And => true,
                _ => false,
            }
        } else {
            false
        };
        if !more {
            return Some((acc, p));
        }
        match parse_test(ts, p + 1, nums) {
            None => {
                return None;
            },
            Some((t, q)) => {
                acc = Boolean::And(Box::new(acc), Box::new(t));
                p = q;
            },
        }
    }
}

/// Reads groups of comparisons joined by `.or.` at `pos`.
pub fn parse_any(ts: &Vec<Token>, pos: usize, nums: &Dict<Number>) -> (r: Option<(Boolean, usize)>)
    ensures
        match r {
            Some((c, p)) => parsed_any(ts.deep_view(), pos as int, nums.deep_view()) == Some(
                (c@, p as int),
            ) && pos < p <= ts.len(),
            None => parsed_any(ts.deep_view(), pos as int, nums.deep_view()).is_none(),
        },
{
    let (first, start) = match parse_all(ts, pos, nums) {
        Some(x) => x,
        None => {
            return None;
        },
    };
    let mut acc = first;
    let mut p = start;
    let ghost all = ts.deep_view();
    let ghost table = nums.deep_view();
    loop
        invariant
            pos < p <= ts.len(),
            all == ts.deep_view(),
            table == nums.deep_view(),
            parsed_any(all, pos as int, table) == or_rest(all, p as int, table, acc@),
        decreases ts.len() - p,
    {
        let more = if p < ts.len() {
            assert(all[p as int] == ts@[p as int]@);
            match &ts[p] {
                Token::Or => true,
                _ => false,
            }
        } else {
            false
        };
        if !more {
            return Some((acc, p));
        }
        match parse_all(ts, p + 1, nums) {
            None => {
                return None;
            },
            Some((t, q)) => {
                acc = Boolean::Or(Box::new(acc), Box::new(t));
                p = q;
            },
        }
    }
}

impl Expr {
    /// Reads an expression. What a number means comes from `nums`.
    pub fn parse(text: &str, nums: &Dict<Number>) -> (r: Result<Expr, Error>)
        ensures
            match r {
                Ok(e) => parsed_expr(text@, nums.deep_view()) == Ok::<ExprV, Error>(e@),
                Err(e) => parsed_expr(text@, nums.deep_view()) == Err::<ExprV, Error>(e),
            },
    {
        reveal(parsed_expr);
        let ts = match tokens(text) {
            Some(ts) => ts,
            None => {
                return Err(Error::BadExpr);
            },
        };
        match parse_sum(&ts, 0, nums) {
            Some((e, p)) => {
                if p == ts.len() {
                    Ok(e)
                } else {
                    Err(Error::BadExpr)
                }
            },
            None => Err(Error::BadExpr),
        }
    }
}

impl Boolean {
    /// Reads a condition. What a number means comes from `nums`.
    pub fn parse(text: &str, nums: &Dict<Number>) -> (r: Result<Boolean, Error>)
        ensures
            match r {
                Ok(c) => parsed_condition(text@, nums.deep_view()) == Ok::<BooleanV, Error>(c@),
                Err(e) => parsed_condition(text@, nums.deep_view()) == Err::<BooleanV, Error>(e),
            },
    {
        reveal(parsed_condition);
        let ts = match tokens(text) {
            Some(ts) => ts,
            None => {
                return Err(Error::BadExpr);
            },
        };
        match parse_any(&ts, 0, nums) {
            Some((c, p)) => {
                if p == ts.len() {
                    Ok(c)
                } else {
                    Err(Error::BadExpr)
                }
            },
            None => Err(Error::BadExpr),
        }
    }
}

/// The quantity that the tokens spell: a sign or none, a number, and a unit
/// or none.
pub open spec fn quantity(ts: Seq<TokenV>, nums: Numbers) -> Option<QuantityV> {
    let start: int = if symbol_at(ts, 0, '-') || symbol_at(ts, 0, '+') {
        1
    } else {
        0
    };
    if start < ts.len() && ts[start] is Number {
        match lookup(nums, ts[start]->Number_0) {
            None => None,
            Some(n) => {
                let value = if symbol_at(ts, 0, '-') {
                    Number { bits: n.bits ^ SIGN_BIT }
                } else {
                    n
                };
                if ts.len() == start + 1 {
                    Some(QuantityV { value, unit: None })
                } else if ts.len() == start + 2 && ts[start + 1] is Name {
                    Some(QuantityV { value, unit: Some(ts[start + 1]->Name_0) })
                } else {
                    None
                }
            },
        }
    } else {
        None
    }
}

/// The quantity that a text spells.
#[verifier::opaque]
pub open spec fn parsed_quantity(text: Seq<char>, nums: Numbers) -> Result<QuantityV, Error> {
    match tokens_of(text) {
        None => Err(Error::BadQuantity),
        Some(ts) => match quantity(ts, nums) {
            Some(q) => Ok(q),
            None => Err(Error::BadQuantity),
        },
    }
}

impl Quantity {
    /// Reads a quantity such as `-70 mV`. What a number means comes from
    /// `nums`.
    pub fn parse(text: &str, nums: &Dict<Number>) -> (r: Result<Quantity, Error>)
        ensures
            match r {
                Ok(q) => parsed_quantity(text@, nums.deep_view()) == Ok::<QuantityV, Error>(q@),
                Err(e) => parsed_quantity(text@, nums.deep_view()) == Err::<QuantityV, Error>(e),
            },
    {
        reveal(parsed_quantity);
        let ts = match tokens(text) {
            Some(ts) => ts,
            None => {
                return Err(Error::BadQuantity);
            },
        };
        let minus = is_symbol_at(&ts, 0, '-');
        let start: usize = if minus || is_symbol_at(&ts, 0, '+') {
            1
        } else {
            0
        };
        if start >= ts.len() {
            return Err(Error::BadQuantity);
        }
        assert(ts.deep_view()[start as int] == ts@[start as int]@);
        let n = match &ts[start] {
            Token::Number(t) => match nums.get(t.as_str()) {
                Some(n) => *n,
                None => {
                    return Err(Error::BadQuantity);
                },
            },
            _ => {
                return Err(Error::BadQuantity);
            },
        };
        let value = if minus {
            n.negated()
        } else {
            n
        };
        if ts.len() == start + 1 {
            Ok(Quantity { value, unit: None })
        } else if ts.len() == start + 2 {
            assert(ts.deep_view()[start + 1] == ts@[start + 1]@);
            match &ts[start + 1] {
                Token::Name(u) => Ok(Quantity { value, unit: Some(u.clone()) }),
                _ => Err(Error::BadQuantity),
            }
        } else {
            Err(Error::BadQuantity)
        }
    }
}

} // verus!

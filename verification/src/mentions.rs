use vstd::prelude::*;
use crate::boolean::{mentions_bool, simplified_bool, substituted_bool, BooleanV};
use crate::dict::lookup;
use crate::expr::{
    factors,
    lemma_simplified,
    lemma_substituted,
    mentions,
    product_of,
    simplified,
    simplified_all,
    substituted,
    substituted_all,
    sum_of,
    terms,
    ExprV,
};

verus! {

/// Whether one of `xs` refers to `name`.
pub open spec fn any_mentions(xs: Seq<ExprV>, name: Seq<char>) -> bool {
    exists|i: int| 0 <= i < xs.len() && mentions(#[trigger] xs[i], name)
}

/// A composite expression refers to a name exactly if one of its operands
/// does.
pub proof fn lemma_mentions(e: ExprV, name: Seq<char>)
    ensures
        mentions(e, name) == match e {
            ExprV::Num(_) => false,
            ExprV::Var(n) => n == name,
            ExprV::Add(xs) => any_mentions(xs, name),
            ExprV::Mul(xs) => any_mentions(xs, name),
            ExprV::Pow(xs) => any_mentions(xs, name),
            ExprV::Fun(_, xs) => any_mentions(xs, name),
        },
{
}

/// A term of a sum refers only to what the operands of the sum refer to.
pub proof fn lemma_terms_mention(xs: Seq<ExprV>, name: Seq<char>)
    requires
        any_mentions(terms(xs), name),
    ensures
        any_mentions(xs, name),
    decreases xs.len(),
{
    let ts = terms(xs);
    let k = choose|k: int| 0 <= k < ts.len() && mentions(#[trigger] ts[k], name);
    let head = terms(xs.drop_last());
    if k < head.len() {
        assert(ts[k] == head[k]);
        lemma_terms_mention(xs.drop_last(), name);
        let i = choose|i: int|
            0 <= i < xs.drop_last().len() && mentions(#[trigger] xs.drop_last()[i], name);
        assert(xs[i] == xs.drop_last()[i]);
    } else {
        match xs.last() {
            ExprV::Add(ys) => {
                assert(ts[k] == ys[k - head.len()]);
                lemma_mentions(xs.last(), name);
                assert(mentions(xs[xs.len() - 1], name));
            },
            x => {
                assert(ts[k] == x);
                assert(mentions(xs[xs.len() - 1], name));
            },
        }
    }
}

/// A factor of a product refers only to what the operands of the product
/// refer to.
pub proof fn lemma_factors_mention(xs: Seq<ExprV>, name: Seq<char>)
    requires
        any_mentions(factors(xs), name),
    ensures
        any_mentions(xs, name),
    decreases xs.len(),
{
    let ts = factors(xs);
    let k = choose|k: int| 0 <= k < ts.len() && mentions(#[trigger] ts[k], name);
    let head = factors(xs.drop_last());
    if k < head.len() {
        assert(ts[k] == head[k]);
        lemma_factors_mention(xs.drop_last(), name);
        let i = choose|i: int|
            0 <= i < xs.drop_last().len() && mentions(#[trigger] xs.drop_last()[i], name);
        assert(xs[i] == xs.drop_last()[i]);
    } else {
        match xs.last() {
            ExprV::Mul(ys) => {
                assert(ts[k] == ys[k - head.len()]);
                lemma_mentions(xs.last(), name);
                assert(mentions(xs[xs.len() - 1], name));
            },
            x => {
                assert(ts[k] == x);
                assert(mentions(xs[xs.len() - 1], name));
            },
        }
    }
}

/// A tidied expression refers only to names that the expression refers to.
pub proof fn lemma_simplified_mentions(e: ExprV, name: Seq<char>)
    requires
        mentions(simplified(e), name),
    ensures
        mentions(e, name),
    decreases e,
{
    lemma_simplified(e);
    lemma_mentions(e, name);
    match e {
        ExprV::Num(_) => {},
        ExprV::Var(_) => {},
        ExprV::Add(xs) => {
            let ys = simplified_all(xs);
            let ts = terms(ys);
            lemma_mentions(sum_of(ts), name);
            if ts.len() == 1 {
                assert(mentions(ts[0], name));
            }
            assert(any_mentions(ts, name));
            lemma_terms_mention(ys, name);
            let i = choose|i: int| 0 <= i < ys.len() && mentions(#[trigger] ys[i], name);
            lemma_simplified_mentions(xs[i], name);
        },
        ExprV::Mul(xs) => {
            let ys = simplified_all(xs);
            let fs = factors(ys);
            lemma_mentions(product_of(fs), name);
            if fs.len() == 1 {
                assert(mentions(fs[0], name));
            }
            assert(any_mentions(fs, name));
            lemma_factors_mention(ys, name);
            let i = choose|i: int| 0 <= i < ys.len() && mentions(#[trigger] ys[i], name);
            lemma_simplified_mentions(xs[i], name);
        },
        ExprV::Pow(xs) => {
            let ys = simplified_all(xs);
            lemma_mentions(simplified(e), name);
            let i = choose|i: int| 0 <= i < ys.len() && mentions(#[trigger] ys[i], name);
            lemma_simplified_mentions(xs[i], name);
        },
        ExprV::Fun(f, xs) => {
            let ys = simplified_all(xs);
            lemma_mentions(simplified(e), name);
            let i = choose|i: int| 0 <= i < ys.len() && mentions(#[trigger] ys[i], name);
            lemma_simplified_mentions(xs[i], name);
        },
    }
}

/// Whether `e` refers to a name for which `table` holds an expression that
/// refers to `name`.
pub open spec fn brought_in(e: ExprV, table: Seq<(Seq<char>, ExprV)>, name: Seq<char>) -> bool {
    exists|m: Seq<char>|
        mentions(e, m) && (#[trigger] lookup(table, m)) is Some && mentions(
            lookup(table, m)->Some_0,
            name,
        )
}

/// What an expression refers to after a table has been applied was there
/// before and is unknown to the table, or was brought in by the table.
pub proof fn lemma_substituted_mentions(e: ExprV, table: Seq<(Seq<char>, ExprV)>, name: Seq<char>)
    requires
        mentions(substituted(e, table), name),
    ensures
        (mentions(e, name) && lookup(table, name) is None) || brought_in(e, table, name),
    decreases e,
{
    lemma_substituted(e, table);
    lemma_mentions(e, name);
    lemma_mentions(substituted(e, table), name);
    match e {
        ExprV::Num(_) => {},
        ExprV::Var(n) => {
            match lookup(table, n) {
                Some(x) => {
                    assert(mentions(e, n));
                    assert(lookup(table, n) is Some);
                },
                None => {},
            }
        },
        ExprV::Add(xs) => {
            lemma_operands_mention(xs, table, name);
            lemma_operands_lift(e, xs, table, name);
        },
        ExprV::Mul(xs) => {
            lemma_operands_mention(xs, table, name);
            lemma_operands_lift(e, xs, table, name);
        },
        ExprV::Pow(xs) => {
            lemma_operands_mention(xs, table, name);
            lemma_operands_lift(e, xs, table, name);
        },
        ExprV::Fun(f, xs) => {
            lemma_operands_mention(xs, table, name);
            lemma_operands_lift(e, xs, table, name);
        },
    }
}

/// The same for one among several operands.
pub proof fn lemma_operands_mention(
    xs: Seq<ExprV>,
    table: Seq<(Seq<char>, ExprV)>,
    name: Seq<char>,
)
    requires
        any_mentions(substituted_all(xs, table), name),
    ensures
        exists|i: int|
            0 <= i < xs.len() && ((mentions(#[trigger] xs[i], name) && lookup(table, name) is None)
                || brought_in(xs[i], table, name)),
    decreases xs, 0nat,
{
    let ys = substituted_all(xs, table);
    let i = choose|i: int| 0 <= i < ys.len() && mentions(#[trigger] ys[i], name);
    lemma_substituted_mentions(xs[i], table, name);
}

/// What holds of an operand in this respect holds of the whole.
pub proof fn lemma_operands_lift(
    e: ExprV,
    xs: Seq<ExprV>,
    table: Seq<(Seq<char>, ExprV)>,
    name: Seq<char>,
)
    requires
        match e {
            ExprV::Add(ys) => ys == xs,
            ExprV::Mul(ys) => ys == xs,
            ExprV::Pow(ys) => ys == xs,
            ExprV::Fun(_, ys) => ys == xs,
            _ => false,
        },
        exists|i: int|
            0 <= i < xs.len() && ((mentions(#[trigger] xs[i], name) && lookup(table, name) is None)
                || brought_in(xs[i], table, name)),
    ensures
        (mentions(e, name) && lookup(table, name) is None) || brought_in(e, table, name),
{
    let i = choose|i: int|
        0 <= i < xs.len() && ((mentions(#[trigger] xs[i], name) && lookup(table, name) is None)
            || brought_in(xs[i], table, name));
    lemma_mentions(e, name);
    if brought_in(xs[i], table, name) {
        let m = choose|m: Seq<char>|
            mentions(xs[i], m) && (#[trigger] lookup(table, m)) is Some && mentions(
                lookup(table, m)->Some_0,
                name,
            );
        lemma_mentions(e, m);
        assert(mentions(e, m));
    }
}

/// Two tables that agree on every name that an expression refers to make
/// the same of it.
pub proof fn lemma_substituted_agree(
    e: ExprV,
    a: Seq<(Seq<char>, ExprV)>,
    b: Seq<(Seq<char>, ExprV)>,
)
    requires
        forall|n: Seq<char>| mentions(e, n) ==> lookup(a, n) == lookup(b, n),
    ensures
        substituted(e, a) == substituted(e, b),
    decreases e,
{
    lemma_substituted(e, a);
    lemma_substituted(e, b);
    match e {
        ExprV::Num(_) => {},
        ExprV::Var(n) => {
            assert(mentions(e, n));
        },
        ExprV::Add(xs) => {
            lemma_operands_agree(e, xs, a, b);
        },
        ExprV::Mul(xs) => {
            lemma_operands_agree(e, xs, a, b);
        },
        ExprV::Pow(xs) => {
            lemma_operands_agree(e, xs, a, b);
        },
        ExprV::Fun(f, xs) => {
            lemma_operands_agree(e, xs, a, b);
        },
    }
}

/// The same for the operands of a composite expression.
pub proof fn lemma_operands_agree(
    e: ExprV,
    xs: Seq<ExprV>,
    a: Seq<(Seq<char>, ExprV)>,
    b: Seq<(Seq<char>, ExprV)>,
)
    requires
        match e {
            ExprV::Add(ys) => ys == xs,
            ExprV::Mul(ys) => ys == xs,
            ExprV::Pow(ys) => ys == xs,
            ExprV::Fun(_, ys) => ys == xs,
            _ => false,
        },
        forall|n: Seq<char>| mentions(e, n) ==> lookup(a, n) == lookup(b, n),
    ensures
        substituted_all(xs, a) == substituted_all(xs, b),
    decreases e, 0nat,
{
    assert forall|i: int| 0 <= i < xs.len() implies substituted(xs[i], a) == substituted(
        xs[i],
        b,
    ) by {
        assert forall|n: Seq<char>| mentions(xs[i], n) implies lookup(a, n) == lookup(b, n) by {
            lemma_mentions(e, n);
            assert(mentions(e, n));
        }
        lemma_substituted_agree(xs[i], a, b);
    }
    assert(substituted_all(xs, a) =~= substituted_all(xs, b));
}

/// A condition with its expressions tidied refers only to names that the
/// condition refers to.
pub proof fn lemma_simplified_bool_mentions(b: BooleanV, name: Seq<char>)
    requires
        mentions_bool(simplified_bool(b), name),
    ensures
        mentions_bool(b, name),
    decreases b,
{
    match b {
        BooleanV::Lit(_) => {},
        BooleanV::Test(r, x, y) => {
            if mentions(simplified(x), name) {
                lemma_simplified_mentions(x, name);
            } else {
                lemma_simplified_mentions(y, name);
            }
        },
        BooleanV::And(p, q) => {
            if mentions_bool(simplified_bool(*p), name) {
                lemma_simplified_bool_mentions(*p, name);
            } else {
                lemma_simplified_bool_mentions(*q, name);
            }
        },
        BooleanV::Or(p, q) => {
            if mentions_bool(simplified_bool(*p), name) {
                lemma_simplified_bool_mentions(*p, name);
            } else {
                lemma_simplified_bool_mentions(*q, name);
            }
        },
    }
}

/// Whether `b` refers to a name for which `table` holds an expression that
/// refers to `name`.
pub open spec fn brought_in_bool(
    b: BooleanV,
    table: Seq<(Seq<char>, ExprV)>,
    name: Seq<char>,
) -> bool {
    exists|m: Seq<char>|
        mentions_bool(b, m) && (#[trigger] lookup(table, m)) is Some && mentions(
            lookup(table, m)->Some_0,
            name,
        )
}

/// What a condition refers to after a table has been applied was there
/// before and is unknown to the table, or was brought in by the table.
pub proof fn lemma_substituted_bool_mentions(
    b: BooleanV,
    table: Seq<(Seq<char>, ExprV)>,
    name: Seq<char>,
)
    requires
        mentions_bool(substituted_bool(b, table), name),
    ensures
        (mentions_bool(b, name) && lookup(table, name) is None) || brought_in_bool(b, table, name),
    decreases b,
{
    match b {
        BooleanV::Lit(_) => {},
        BooleanV::Test(r, x, y) => {
            let e = if mentions(substituted(x, table), name) {
                x
            } else {
                y
            };
            lemma_substituted_mentions(e, table, name);
            if brought_in(e, table, name) {
                let m = choose|m: Seq<char>|
                    mentions(e, m) && (#[trigger] lookup(table, m)) is Some && mentions(
                        lookup(table, m)->Some_0,
                        name,
                    );
                assert(mentions_bool(b, m));
            }
        },
        BooleanV::And(p, q) => {
            let c = if mentions_bool(substituted_bool(*p, table), name) {
                *p
            } else {
                *q
            };
            lemma_substituted_bool_mentions(c, table, name);
            if brought_in_bool(c, table, name) {
                let m = choose|m: Seq<char>|
                    mentions_bool(c, m) && (#[trigger] lookup(table, m)) is Some && mentions(
                        lookup(table, m)->Some_0,
                        name,
                    );
                assert(mentions_bool(b, m));
            }
        },
        BooleanV::Or(p, q) => {
            let c = if mentions_bool(substituted_bool(*p, table), name) {
                *p
            } else {
                *q
            };
            lemma_substituted_bool_mentions(c, table, name);
            if brought_in_bool(c, table, name) {
                let m = choose|m: Seq<char>|
                    mentions_bool(c, m) && (#[trigger] lookup(table, m)) is Some && mentions(
                        lookup(table, m)->Some_0,
                        name,
                    );
                assert(mentions_bool(b, m));
            }
        },
    }
}

/// Two tables that agree on every name that a condition refers to make the
/// same of it.
pub proof fn lemma_substituted_bool_agree(
    c: BooleanV,
    a: Seq<(Seq<char>, ExprV)>,
    b: Seq<(Seq<char>, ExprV)>,
)
    requires
        forall|n: Seq<char>| mentions_bool(c, n) ==> lookup(a, n) == lookup(b, n),
    ensures
        substituted_bool(c, a) == substituted_bool(c, b),
    decreases c,
{
    match c {
        BooleanV::Lit(_) => {},
        BooleanV::Test(r, x, y) => {
            lemma_substituted_agree(x, a, b);
            lemma_substituted_agree(y, a, b);
        },
        BooleanV::And(p, q) => {
            lemma_substituted_bool_agree(*p, a, b);
            lemma_substituted_bool_agree(*q, a, b);
        },
        BooleanV::Or(p, q) => {
            lemma_substituted_bool_agree(*p, a, b);
            lemma_substituted_bool_agree(*q, a, b);
        },
    }
}

} // verus!

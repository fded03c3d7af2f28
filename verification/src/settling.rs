use vstd::prelude::*;
use crate::boolean::{mentions_bool, simplified_bool, substituted_bool, BooleanV};
use crate::collapsed::CollapsedV;
use crate::dict::{lemma_put, lookup, put, put_all};
use crate::expr::{lemma_simplified, lemma_substituted, mentions, simplified, substituted, ExprV, QuantityV};
use crate::mentions::{
    lemma_mentions,
    lemma_simplified_bool_mentions,
    lemma_simplified_mentions,
    lemma_substituted_agree,
    lemma_substituted_bool_agree,
    lemma_substituted_bool_mentions,
    lemma_substituted_mentions,
};
use crate::simplify::{
    constant_values, dropped_values, is_trivial, kept_by, kept_parameters, retained, round,
    settled, simplified_form, stepped, table_of, trivial_values, ROUNDS,
};
use crate::variable::{propagated, propagated_cases, propagated_kind, VarKindV, VariableV};

verus! {

/// The value of the last entry for `name` among `entries`.
pub open spec fn last_value<T>(entries: Seq<(Seq<char>, T)>, name: Seq<char>) -> Option<T>
    decreases entries.len(),
{
    if entries.len() == 0 {
        None
    } else if entries.last().0 == name {
        Some(entries.last().1)
    } else {
        last_value(entries.drop_last(), name)
    }
}

/// After entries have been put into a dictionary, a name has the value of
/// the last entry for it, or what it had before where no entry is for it.
pub proof fn lemma_put_all_lookup<T>(
    s: Seq<(Seq<char>, T)>,
    entries: Seq<(Seq<char>, T)>,
    name: Seq<char>,
)
    ensures
        lookup(put_all(s, entries), name) == match last_value(entries, name) {
            Some(v) => Some(v),
            None => lookup(s, name),
        },
    decreases entries.len(),
{
    if entries.len() > 0 {
        lemma_put_all_lookup(s, entries.drop_last(), name);
        lemma_put(put_all(s, entries.drop_last()), entries.last().0, entries.last().1, name);
    }
}

/// Of the parameters that stay, all stay.
pub proof fn lemma_kept_stay(params: Seq<(Seq<char>, Option<QuantityV>)>, tokens: Seq<Seq<char>>)
    ensures
        kept_parameters(kept_parameters(params, tokens), tokens) == kept_parameters(
            params,
            tokens,
        ),
        dropped_values(kept_parameters(params, tokens), tokens) == Seq::<
            (Seq<char>, ExprV),
        >::empty(),
    decreases params.len(),
{
    if params.len() > 0 {
        lemma_kept_stay(params.drop_last(), tokens);
        let head = kept_parameters(params.drop_last(), tokens);
        if retained(tokens, params.last().0, params.last().1) {
            assert(head.push(params.last()).drop_last() =~= head);
        }
    }
}

/// What stands for a parameter that does not stay is a number.
pub proof fn lemma_dropped_are_numbers(
    params: Seq<(Seq<char>, Option<QuantityV>)>,
    tokens: Seq<Seq<char>>,
    name: Seq<char>,
)
    ensures
        match last_value(dropped_values(params, tokens), name) {
            Some(z) => z is Num,
            None => true,
        },
    decreases params.len(),
{
    if params.len() > 0 {
        lemma_dropped_are_numbers(params.drop_last(), tokens, name);
        let head = dropped_values(params.drop_last(), tokens);
        match params.last().1 {
            Some(q) => {
                if !kept_by(tokens, params.last().0) {
                    let e = (params.last().0, ExprV::Num(q.value));
                    assert(head.push(e).drop_last() =~= head);
                }
            },
            None => {},
        }
    }
}

/// What stands for a constant is a number.
pub proof fn lemma_constants_are_numbers(cs: Seq<(Seq<char>, QuantityV)>, name: Seq<char>)
    ensures
        match last_value(constant_values(cs), name) {
            Some(z) => z is Num,
            None => true,
        },
    decreases cs.len(),
{
    lemma_last_value_is_entry(constant_values(cs), name);
}

/// The value of the last entry for a name is the value of an entry for it.
pub proof fn lemma_last_value_is_entry<T>(entries: Seq<(Seq<char>, T)>, name: Seq<char>)
    ensures
        match last_value(entries, name) {
            Some(v) => exists|i: int|
                0 <= i < entries.len() && #[trigger] entries[i] == (name, v),
            None => true,
        },
    decreases entries.len(),
{
    if entries.len() > 0 {
        if entries.last().0 == name {
            assert(entries[entries.len() - 1] == (name, entries.last().1));
        } else {
            lemma_last_value_is_entry(entries.drop_last(), name);
            match last_value(entries.drop_last(), name) {
                Some(v) => {
                    let i = choose|i: int|
                        0 <= i < entries.drop_last().len() && #[trigger] entries.drop_last()[i]
                            == (name, v);
                    assert(entries[i] == (name, v));
                },
                None => {},
            }
        }
    }
}

/// What stands for a trivial variable is what the variable is defined to be.
pub proof fn lemma_trivial_is_variable(vars: Seq<VariableV>, i: int)
    requires
        0 <= i < trivial_values(vars).len(),
    ensures
        exists|u: int|
            0 <= u < vars.len() && is_trivial(#[trigger] vars[u]) && vars[u].kind->Derived_1
                == Some(trivial_values(vars)[i].1),
    decreases vars.len(),
{
    let head = trivial_values(vars.drop_last());
    if is_trivial(vars.last()) && i == head.len() {
        assert(is_trivial(vars[vars.len() - 1]));
    } else {
        assert(trivial_values(vars)[i] == head[i]);
        lemma_trivial_is_variable(vars.drop_last(), i);
        let u = choose|u: int|
            0 <= u < vars.drop_last().len() && is_trivial(#[trigger] vars.drop_last()[u])
                && vars.drop_last()[u].kind->Derived_1 == Some(head[i].1);
        assert(vars[u] == vars.drop_last()[u]);
    }
}

/// What a round puts in place of names, apart from what trivial variables
/// stand for.
pub open spec fn base_table(x: CollapsedV, tokens: Seq<Seq<char>>) -> Seq<(Seq<char>, ExprV)> {
    put_all(
        put_all(Seq::empty(), dropped_values(x.parameters, tokens)),
        constant_values(x.constants),
    )
}

/// Whether the variables do not change in a round with `table`.
pub open spec fn at_rest(vars: Seq<VariableV>, table: Seq<(Seq<char>, ExprV)>) -> bool {
    stepped(vars, table) == vars
}

/// Whether a round puts a number in place of `name` that no trivial variable
/// speaks for.
pub open spec fn replaced_by_number(
    x: CollapsedV,
    tokens: Seq<Seq<char>>,
    vars: Seq<VariableV>,
    name: Seq<char>,
) -> bool {
    last_value(trivial_values(vars), name) is None && lookup(base_table(x, tokens), name) is Some
}

/// In a round, a name has what the trivial variable of that name stands for,
/// else the number of the parameter or constant of that name.
pub proof fn lemma_table_lookup(
    x: CollapsedV,
    tokens: Seq<Seq<char>>,
    vars: Seq<VariableV>,
    name: Seq<char>,
)
    ensures
        lookup(table_of(x, tokens, vars), name) == match last_value(trivial_values(vars), name) {
            Some(v) => Some(v),
            None => lookup(base_table(x, tokens), name),
        },
        match lookup(base_table(x, tokens), name) {
            Some(z) => z is Num,
            None => true,
        },
{
    lemma_put_all_lookup(base_table(x, tokens), trivial_values(vars), name);
    let first = put_all(Seq::empty(), dropped_values(x.parameters, tokens));
    lemma_put_all_lookup(first, constant_values(x.constants), name);
    lemma_put_all_lookup(Seq::empty(), dropped_values(x.parameters, tokens), name);
    lemma_dropped_are_numbers(x.parameters, tokens, name);
    lemma_constants_are_numbers(x.constants, name);
}

/// Among variables at rest, no trivial variable is another name for a
/// parameter or constant that the round replaces by a number: the round
/// would have put the number in its place.
pub proof fn lemma_no_alias_of_number(
    x: CollapsedV,
    tokens: Seq<Seq<char>>,
    vars: Seq<VariableV>,
    m: Seq<char>,
    name: Seq<char>,
)
    requires
        at_rest(vars, table_of(x, tokens, vars)),
        replaced_by_number(x, tokens, vars, name),
        lookup(table_of(x, tokens, vars), m) is Some,
    ensures
        !mentions(lookup(table_of(x, tokens, vars), m)->Some_0, name),
{
    let table = table_of(x, tokens, vars);
    lemma_table_lookup(x, tokens, vars, m);
    lemma_table_lookup(x, tokens, vars, name);
    match last_value(trivial_values(vars), m) {
        Some(w) => {
            if mentions(w, name) {
                lemma_last_value_is_entry(trivial_values(vars), m);
                let i = choose|i: int|
                    0 <= i < trivial_values(vars).len() && #[trigger] trivial_values(vars)[i] == (
                        m,
                        w,
                    );
                lemma_trivial_is_variable(vars, i);
                let u = choose|u: int|
                    0 <= u < vars.len() && is_trivial(#[trigger] vars[u])
                        && vars[u].kind->Derived_1 == Some(w);
                lemma_mentions(w, name);
                assert(w == ExprV::Var(name));
                assert(stepped(vars, table)[u] == vars[u]);
                assert(propagated_kind(vars[u].kind, table) == vars[u].kind);
                assert(propagated(w, table) == w);
                lemma_substituted(w, table);
                let z = lookup(table, name)->Some_0;
                assert(substituted(w, table) == z);
                lemma_simplified(z);
                assert(false);
            }
        },
        None => {
            let z = lookup(base_table(x, tokens), m)->Some_0;
            lemma_mentions(z, name);
        },
    }
}

/// An expression at rest refers to no name that the round replaces by a
/// number, so that the round makes of it what a round with the trivial
/// variables alone would make.
pub proof fn lemma_expr_at_rest(
    x: CollapsedV,
    tokens: Seq<Seq<char>>,
    vars: Seq<VariableV>,
    e: ExprV,
)
    requires
        at_rest(vars, table_of(x, tokens, vars)),
        propagated(e, table_of(x, tokens, vars)) == e,
    ensures
        substituted(e, put_all(Seq::empty(), trivial_values(vars))) == substituted(
            e,
            table_of(x, tokens, vars),
        ),
{
    let table = table_of(x, tokens, vars);
    let alone = put_all(Seq::empty(), trivial_values(vars));
    assert forall|n: Seq<char>| mentions(e, n) implies lookup(alone, n) == lookup(table, n) by {
        lemma_table_lookup(x, tokens, vars, n);
        lemma_put_all_lookup(Seq::<(Seq<char>, ExprV)>::empty(), trivial_values(vars), n);
        if replaced_by_number(x, tokens, vars, n) {
            lemma_simplified_mentions(substituted(e, table), n);
            lemma_substituted_mentions(e, table, n);
            let m = choose|m: Seq<char>|
                mentions(e, m) && (#[trigger] lookup(table, m)) is Some && mentions(
                    lookup(table, m)->Some_0,
                    n,
                );
            lemma_no_alias_of_number(x, tokens, vars, m, n);
        }
    }
    lemma_substituted_agree(e, alone, table);
}

/// The same for a condition.
pub proof fn lemma_condition_at_rest(
    x: CollapsedV,
    tokens: Seq<Seq<char>>,
    vars: Seq<VariableV>,
    c: BooleanV,
)
    requires
        at_rest(vars, table_of(x, tokens, vars)),
        simplified_bool(substituted_bool(c, table_of(x, tokens, vars))) == c,
    ensures
        substituted_bool(c, put_all(Seq::empty(), trivial_values(vars))) == substituted_bool(
            c,
            table_of(x, tokens, vars),
        ),
{
    let table = table_of(x, tokens, vars);
    let alone = put_all(Seq::empty(), trivial_values(vars));
    assert forall|n: Seq<char>| mentions_bool(c, n) implies lookup(alone, n) == lookup(
        table,
        n,
    ) by {
        lemma_table_lookup(x, tokens, vars, n);
        lemma_put_all_lookup(Seq::<(Seq<char>, ExprV)>::empty(), trivial_values(vars), n);
        if replaced_by_number(x, tokens, vars, n) {
            lemma_simplified_bool_mentions(substituted_bool(c, table), n);
            lemma_substituted_bool_mentions(c, table, n);
            let m = choose|m: Seq<char>|
                mentions_bool(c, m) && (#[trigger] lookup(table, m)) is Some && mentions(
                    lookup(table, m)->Some_0,
                    n,
                );
            lemma_no_alias_of_number(x, tokens, vars, m, n);
        }
    }
    lemma_substituted_bool_agree(c, alone, table);
}

/// A kind at rest stays as it is in a round with the trivial variables
/// alone.
pub proof fn lemma_kind_at_rest(
    x: CollapsedV,
    tokens: Seq<Seq<char>>,
    vars: Seq<VariableV>,
    k: VarKindV,
)
    requires
        at_rest(vars, table_of(x, tokens, vars)),
        propagated_kind(k, table_of(x, tokens, vars)) == k,
    ensures
        propagated_kind(k, put_all(Seq::empty(), trivial_values(vars))) == k,
{
    let table = table_of(x, tokens, vars);
    let alone = put_all(Seq::empty(), trivial_values(vars));
    match k {
        VarKindV::Select(_, _) => {},
        VarKindV::Derived(cs, df) => {
            match df {
                Some(e) => {
                    lemma_expr_at_rest(x, tokens, vars, e);
                },
                None => {},
            }
            assert forall|i: int| 0 <= i < cs.len() implies propagated_cases(cs, alone)[i]
                == cs[i] by {
                assert(propagated_cases(cs, table)[i] == cs[i]);
                lemma_condition_at_rest(x, tokens, vars, cs[i].0);
                lemma_expr_at_rest(x, tokens, vars, cs[i].1);
            }
            assert(propagated_cases(cs, alone) =~= cs);
        },
        VarKindV::State(i, d) => {
            match i {
                Some(e) => {
                    lemma_expr_at_rest(x, tokens, vars, e);
                },
                None => {},
            }
            match d {
                Some(e) => {
                    lemma_expr_at_rest(x, tokens, vars, e);
                },
                None => {},
            }
        },
    }
}

/// Propagation that has come to rest leaves variables on which the next
/// round changes nothing.
pub open spec fn came_to_rest(x: CollapsedV, tokens: Seq<Seq<char>>) -> bool {
    round(x, tokens, settled(x, tokens, x.variables, ROUNDS as nat)) == settled(
        x,
        tokens,
        x.variables,
        ROUNDS as nat,
    )
}

/// Simplifying what has been simplified changes nothing: where propagation
/// has come to rest, the simplified form is its own simplified form under
/// the same filter.
pub proof fn lemma_simplify_idempotent(x: CollapsedV, tokens: Seq<Seq<char>>)
    requires
        came_to_rest(x, tokens),
    ensures
        simplified_form(simplified_form(x, tokens), tokens) == simplified_form(x, tokens),
{
    let y = simplified_form(x, tokens);
    let vars = y.variables;
    lemma_kept_stay(x.parameters, tokens);
    let table = table_of(x, tokens, vars);
    let alone = put_all(Seq::empty(), trivial_values(vars));
    assert(constant_values(y.constants) =~= Seq::<(Seq<char>, ExprV)>::empty());
    assert(table_of(y, tokens, vars) == alone);
    assert forall|i: int| 0 <= i < vars.len() implies stepped(vars, alone)[i] == vars[i] by {
        assert(stepped(vars, table)[i] == vars[i]);
        lemma_kind_at_rest(x, tokens, vars, vars[i].kind);
    }
    assert(stepped(vars, alone) =~= vars);
    assert(round(y, tokens, vars) == vars);
    assert(settled(y, tokens, vars, ROUNDS as nat) == vars);
}

} // verus!

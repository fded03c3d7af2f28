use vstd::prelude::*;
use crate::boolean::{mentions_bool, BooleanV};
use crate::collapsed::{
    collapsed,
    collapsed_tree,
    entered,
    flat_entries,
    flat_lookups,
    flat_variable,
    gathered,
    lemma_resolved,
    local_symbols,
    merged,
    own,
    references,
    resolved,
    resolved_variable,
    scope_label,
    with_groups,
    with_members,
    with_singles,
    CollapsedV,
};
use crate::context::{
    defining,
    frame_labels,
    lemma_renamed_expr,
    nonempty,
    qualified,
    renamed,
    renamed_all,
    renamed_bool,
    renamed_cases,
    renamed_expr,
    scope,
    Frames,
};
use crate::dict::{keys, lemma_find, put, put_all};
use crate::error::Error;
use crate::expr::{mentions, ExprV};
use crate::flattening::below;
use crate::instance::{ComponentTypeV, InstanceV};
use crate::mentions::{any_mentions, lemma_mentions};
use crate::path::selected;
use crate::text::join;
use crate::variable::{VarKindV, VariableV};

verus! {

/// Whether a name is free of the marks that a path is written with.
pub open spec fn flat(name: Seq<char>) -> bool {
    forall|i: int|
        0 <= i < name.len() ==> #[trigger] name[i] != '/' && name[i] != '[' && name[i] != ']'
}

/// Whether all the names are flat.
pub open spec fn all_flat(names: Seq<Seq<char>>) -> bool {
    forall|i: int| 0 <= i < names.len() ==> flat(#[trigger] names[i])
}

/// Whether every name that `e` refers to is flat.
pub open spec fn flat_refs(e: ExprV) -> bool {
    forall|n: Seq<char>| mentions(e, n) ==> flat(n)
}

/// Whether every name that `b` refers to is flat.
pub open spec fn flat_refs_bool(b: BooleanV) -> bool {
    forall|n: Seq<char>| mentions_bool(b, n) ==> flat(n)
}

pub open spec fn flat_refs_opt(e: Option<ExprV>) -> bool {
    match e {
        Some(x) => flat_refs(x),
        None => true,
    }
}

/// Whether every name that an expression or a condition of the kind refers
/// to is flat.
pub open spec fn flat_refs_kind(k: VarKindV) -> bool {
    match k {
        VarKindV::Select(_, _) => true,
        VarKindV::Derived(cs, df) => flat_refs_opt(df) && forall|i: int|
            0 <= i < cs.len() ==> flat_refs_bool((#[trigger] cs[i]).0) && flat_refs(cs[i].1),
        VarKindV::State(i, d) => flat_refs_opt(i) && flat_refs_opt(d),
    }
}

/// Whether the name of a variable and all that it refers to is flat.
pub open spec fn flat_variable_form(v: VariableV) -> bool {
    flat(v.name) && flat_refs_kind(v.kind)
}

/// Whether every symbol of a flat form is flat: the names of its exposures,
/// parameters, constants, attributes and variables, the variables that its
/// events assign to, and every name that an expression or a condition of a
/// variable refers to.
pub open spec fn flat_form(c: CollapsedV) -> bool {
    &&& all_flat(keys(c.exposures))
    &&& all_flat(keys(c.parameters))
    &&& all_flat(keys(c.constants))
    &&& all_flat(keys(c.attributes))
    &&& all_flat(keys(c.events))
    &&& forall|i: int| 0 <= i < c.variables.len() ==> flat_variable_form(#[trigger] c.variables[i])
}

/// Whether every name that a component type declares or refers to is flat.
pub open spec fn flat_type(ct: ComponentTypeV) -> bool {
    &&& all_flat(keys(ct.exposures))
    &&& all_flat(ct.parameters)
    &&& all_flat(keys(ct.constants))
    &&& all_flat(ct.attributes)
    &&& all_flat(keys(ct.events))
    &&& forall|i: int|
        0 <= i < ct.variables.len() ==> flat_variable_form(#[trigger] ct.variables[i])
}

/// Whether the id of a component, the names of its slots and the names of
/// its type are flat.
pub open spec fn flat_component(inst: InstanceV) -> bool {
    &&& flat_type(inst.component_type)
    &&& match inst.id {
        Some(id) => flat(id),
        None => true,
    }
    &&& all_flat(keys(inst.child))
    &&& all_flat(keys(inst.children))
}

/// Whether every component of a tree is flat.
pub open spec fn flat_tree(root: InstanceV) -> bool {
    forall|b: InstanceV, depth: nat| below(root, b, depth) ==> flat_component(b)
}

/// Whether the labels of the frames are flat.
pub open spec fn flat_frames(frames: Frames) -> bool {
    all_flat(frame_labels(frames))
}

/// Flat names joined by `_` make a flat name.
pub proof fn lemma_join_flat(parts: Seq<Seq<char>>)
    requires
        all_flat(parts),
    ensures
        flat(join(parts, "_"@)),
    decreases parts.len(),
{
    reveal_strlit("_");
    if parts.len() == 0 {
    } else if parts.len() == 1 {
        assert(flat(parts[0]));
    } else {
        assert forall|i: int| 0 <= i < parts.drop_last().len() implies flat(
            #[trigger] parts.drop_last()[i],
        ) by {
            assert(flat(parts[i]));
        }
        lemma_join_flat(parts.drop_last());
        assert(flat(parts[parts.len() - 1]));
    }
}

/// The labels that are not empty are among the labels.
pub proof fn lemma_nonempty_flat(parts: Seq<Seq<char>>)
    requires
        all_flat(parts),
    ensures
        all_flat(nonempty(parts)),
    decreases parts.len(),
{
    if parts.len() > 0 {
        assert forall|i: int| 0 <= i < parts.drop_last().len() implies flat(
            #[trigger] parts.drop_last()[i],
        ) by {
            assert(flat(parts[i]));
        }
        lemma_nonempty_flat(parts.drop_last());
        assert(flat(parts[parts.len() - 1]));
    }
}

/// A flat name under flat labels has a flat name in the flat namespace.
pub proof fn lemma_qualified_flat(frames: Frames, name: Seq<char>)
    requires
        flat_frames(frames),
        flat(name),
    ensures
        flat(qualified(frames, name)),
        flat(renamed(frames, name)),
{
    lemma_nonempty_flat(frame_labels(frames));
    let parts = scope(frames).push(name);
    assert forall|i: int| 0 <= i < parts.len() implies flat(#[trigger] parts[i]) by {
        if i < scope(frames).len() {
            assert(flat(scope(frames)[i]));
        }
    }
    lemma_join_flat(parts);
    match defining(frames, name) {
        None => {},
        Some(d) => {
            lemma_defining(frames, name);
            let upto = frame_labels(frames.subrange(0, d + 1)).push(name);
            assert forall|i: int| 0 <= i < upto.len() implies flat(#[trigger] upto[i]) by {
                if i < upto.len() - 1 {
                    assert(upto[i] == frame_labels(frames)[i]);
                }
            }
            lemma_nonempty_flat(upto);
            lemma_join_flat(nonempty(upto));
        },
    }
}

/// The frame that declares a name is one of the frames.
pub proof fn lemma_defining(frames: Frames, name: Seq<char>)
    ensures
        match defining(frames, name) {
            Some(d) => 0 <= d < frames.len(),
            None => true,
        },
    decreases frames.len(),
{
    if frames.len() > 0 && !frames.last().1.contains(name) {
        lemma_defining(frames.drop_last(), name);
    }
}

/// What a renamed expression refers to is a renamed name that the
/// expression refers to.
pub proof fn lemma_renamed_mentions(frames: Frames, e: ExprV, n: Seq<char>)
    requires
        mentions(renamed_expr(frames, e), n),
    ensures
        exists|m: Seq<char>| mentions(e, m) && n == #[trigger] renamed(frames, m),
    decreases e,
{
    lemma_renamed_expr(frames, e);
    lemma_mentions(renamed_expr(frames, e), n);
    match e {
        ExprV::Num(_) => {},
        ExprV::Var(m) => {
            assert(mentions(e, m) && n == renamed(frames, m));
        },
        ExprV::Add(xs) => {
            lemma_renamed_operands(frames, e, xs, n);
        },
        ExprV::Mul(xs) => {
            lemma_renamed_operands(frames, e, xs, n);
        },
        ExprV::Pow(xs) => {
            lemma_renamed_operands(frames, e, xs, n);
        },
        ExprV::Fun(_, xs) => {
            lemma_renamed_operands(frames, e, xs, n);
        },
    }
}

/// The same for the operands of a composite expression.
pub proof fn lemma_renamed_operands(frames: Frames, e: ExprV, xs: Seq<ExprV>, n: Seq<char>)
    requires
        match e {
            ExprV::Add(ys) => ys == xs,
            ExprV::Mul(ys) => ys == xs,
            ExprV::Pow(ys) => ys == xs,
            ExprV::Fun(_, ys) => ys == xs,
            _ => false,
        },
        any_mentions(renamed_all(frames, xs), n),
    ensures
        exists|m: Seq<char>| mentions(e, m) && n == #[trigger] renamed(frames, m),
    decreases e, 0nat,
{
    let ys = renamed_all(frames, xs);
    let i = choose|i: int| 0 <= i < ys.len() && mentions(#[trigger] ys[i], n);
    lemma_renamed_mentions(frames, xs[i], n);
    let m = choose|m: Seq<char>| mentions(xs[i], m) && n == #[trigger] renamed(frames, m);
    lemma_mentions(e, m);
    assert(mentions(e, m) && n == renamed(frames, m));
}

/// An expression with flat references, renamed under flat labels, has flat
/// references.
pub proof fn lemma_renamed_flat(frames: Frames, e: ExprV)
    requires
        flat_frames(frames),
        flat_refs(e),
    ensures
        flat_refs(renamed_expr(frames, e)),
{
    assert forall|n: Seq<char>| mentions(renamed_expr(frames, e), n) implies flat(n) by {
        lemma_renamed_mentions(frames, e, n);
        let m = choose|m: Seq<char>| mentions(e, m) && n == #[trigger] renamed(frames, m);
        lemma_qualified_flat(frames, m);
    }
}

/// The same for a condition.
pub proof fn lemma_renamed_bool_flat(frames: Frames, b: BooleanV)
    requires
        flat_frames(frames),
        flat_refs_bool(b),
    ensures
        flat_refs_bool(renamed_bool(frames, b)),
    decreases b,
{
    match b {
        BooleanV::Lit(_) => {},
        BooleanV::Test(r, x, y) => {
            assert forall|n: Seq<char>| mentions(x, n) implies flat(n) by {
                assert(mentions_bool(b, n));
            }
            assert forall|n: Seq<char>| mentions(y, n) implies flat(n) by {
                assert(mentions_bool(b, n));
            }
            lemma_renamed_flat(frames, x);
            lemma_renamed_flat(frames, y);
        },
        BooleanV::And(p, q) => {
            assert forall|n: Seq<char>| mentions_bool(*p, n) implies flat(n) by {
                assert(mentions_bool(b, n));
            }
            assert forall|n: Seq<char>| mentions_bool(*q, n) implies flat(n) by {
                assert(mentions_bool(b, n));
            }
            lemma_renamed_bool_flat(frames, *p);
            lemma_renamed_bool_flat(frames, *q);
        },
        BooleanV::Or(p, q) => {
            assert forall|n: Seq<char>| mentions_bool(*p, n) implies flat(n) by {
                assert(mentions_bool(b, n));
            }
            assert forall|n: Seq<char>| mentions_bool(*q, n) implies flat(n) by {
                assert(mentions_bool(b, n));
            }
            lemma_renamed_bool_flat(frames, *p);
            lemma_renamed_bool_flat(frames, *q);
        },
    }
}

/// A flat variable is flat in the flat namespace.
pub proof fn lemma_flat_variable(frames: Frames, v: VariableV)
    requires
        flat_frames(frames),
        flat_variable_form(v),
    ensures
        flat_variable_form(flat_variable(v, frames)),
{
    lemma_qualified_flat(frames, v.name);
    match v.kind {
        VarKindV::Select(_, _) => {},
        VarKindV::Derived(cs, df) => {
            match df {
                Some(e) => {
                    lemma_renamed_flat(frames, e);
                },
                None => {},
            }
            let rs = renamed_cases(frames, cs);
            assert forall|i: int| 0 <= i < rs.len() implies flat_refs_bool((#[trigger] rs[i]).0)
                && flat_refs(rs[i].1) by {
                assert(flat_refs_bool(cs[i].0) && flat_refs(cs[i].1));
                lemma_renamed_bool_flat(frames, cs[i].0);
                lemma_renamed_flat(frames, cs[i].1);
            }
        },
        VarKindV::State(i, d) => {
            match i {
                Some(e) => {
                    lemma_renamed_flat(frames, e);
                },
                None => {},
            }
            match d {
                Some(e) => {
                    lemma_renamed_flat(frames, e);
                },
                None => {},
            }
        },
    }
}

/// Putting an entry with a flat key among entries with flat keys leaves the
/// keys flat.
pub proof fn lemma_put_flat<T>(s: Seq<(Seq<char>, T)>, key: Seq<char>, value: T)
    requires
        all_flat(keys(s)),
        flat(key),
    ensures
        all_flat(keys(put(s, key, value))),
{
    lemma_find(s, key);
    let t = put(s, key, value);
    assert forall|i: int| 0 <= i < keys(t).len() implies flat(#[trigger] keys(t)[i]) by {
        if i < s.len() {
            assert(flat(keys(s)[i]));
        }
    }
}

/// Putting entries with flat keys among entries with flat keys leaves the
/// keys flat.
pub proof fn lemma_put_all_flat<T>(s: Seq<(Seq<char>, T)>, other: Seq<(Seq<char>, T)>)
    requires
        all_flat(keys(s)),
        all_flat(keys(other)),
    ensures
        all_flat(keys(put_all(s, other))),
    decreases other.len(),
{
    if other.len() > 0 {
        assert forall|i: int| 0 <= i < keys(other.drop_last()).len() implies flat(
            #[trigger] keys(other.drop_last())[i],
        ) by {
            assert(flat(keys(other)[i]));
        }
        lemma_put_all_flat(s, other.drop_last());
        assert(flat(keys(other)[other.len() - 1]));
        lemma_put_flat(put_all(s, other.drop_last()), other.last().0, other.last().1);
    }
}

/// Entries with flat keys have flat keys in the flat namespace.
pub proof fn lemma_flat_entries<T>(s: Seq<(Seq<char>, T)>, frames: Frames)
    requires
        flat_frames(frames),
        all_flat(keys(s)),
    ensures
        all_flat(keys(flat_entries(s, frames))),
{
    let t = flat_entries(s, frames);
    assert forall|i: int| 0 <= i < keys(t).len() implies flat(#[trigger] keys(t)[i]) by {
        assert(flat(keys(s)[i]));
        lemma_qualified_flat(frames, s[i].0);
    }
}

/// Flat names have flat names in the flat namespace.
pub proof fn lemma_flat_lookups<T>(names: Seq<Seq<char>>, values: Seq<(Seq<char>, T)>, frames: Frames)
    requires
        flat_frames(frames),
        all_flat(names),
    ensures
        all_flat(keys(flat_lookups(names, values, frames))),
{
    let t = flat_lookups(names, values, frames);
    assert forall|i: int| 0 <= i < keys(t).len() implies flat(#[trigger] keys(t)[i]) by {
        assert(flat(names[i]));
        lemma_qualified_flat(frames, names[i]);
    }
}

/// What a flat component contributes by itself under flat labels is flat.
pub proof fn lemma_own_flat(inst: InstanceV, frames: Frames)
    requires
        flat_frames(frames),
        flat_type(inst.component_type),
    ensures
        flat_form(own(inst, frames)),
{
    let ct = inst.component_type;
    let c = own(inst, frames);
    let none = Seq::<(Seq<char>, Seq<char>)>::empty();
    lemma_flat_entries(ct.exposures, frames);
    lemma_put_all_flat(Seq::empty(), flat_entries(ct.exposures, frames));
    lemma_flat_entries(ct.constants, frames);
    lemma_put_all_flat(Seq::empty(), flat_entries(ct.constants, frames));
    lemma_flat_lookups(ct.parameters, inst.parameters, frames);
    lemma_put_all_flat(Seq::empty(), flat_lookups(ct.parameters, inst.parameters, frames));
    lemma_flat_lookups(ct.attributes, inst.attributes, frames);
    lemma_put_all_flat(Seq::empty(), flat_lookups(ct.attributes, inst.attributes, frames));
    assert forall|i: int| 0 <= i < keys(c.events).len() implies flat(
        #[trigger] keys(c.events)[i],
    ) by {
        assert(flat(keys(ct.events)[i]));
        lemma_qualified_flat(frames, ct.events[i].0);
    }
    assert forall|i: int| 0 <= i < c.variables.len() implies flat_variable_form(
        #[trigger] c.variables[i],
    ) by {
        assert(flat_variable_form(ct.variables[i]));
        lemma_flat_variable(frames, ct.variables[i]);
    }
}

/// Two flat forms merged make a flat form.
pub proof fn lemma_merged_flat(a: CollapsedV, o: CollapsedV)
    requires
        flat_form(a),
        flat_form(o),
    ensures
        flat_form(merged(a, o)),
{
    let c = merged(a, o);
    lemma_put_all_flat(a.exposures, o.exposures);
    lemma_put_all_flat(a.parameters, o.parameters);
    lemma_put_all_flat(a.constants, o.constants);
    lemma_put_all_flat(a.attributes, o.attributes);
    assert forall|i: int| 0 <= i < keys(c.events).len() implies flat(
        #[trigger] keys(c.events)[i],
    ) by {
        if i < a.events.len() {
            assert(flat(keys(a.events)[i]));
        } else {
            assert(flat(keys(o.events)[i - a.events.len()]));
        }
    }
    assert forall|i: int| 0 <= i < c.variables.len() implies flat_variable_form(
        #[trigger] c.variables[i],
    ) by {
        if i < a.variables.len() {
            assert(flat_variable_form(a.variables[i]));
        } else {
            assert(flat_variable_form(o.variables[i - a.variables.len()]));
        }
    }
}

/// What is selected from names is among the names.
pub proof fn lemma_selected_flat(pattern: Seq<crate::path::PathV>, names: Seq<Seq<char>>)
    requires
        all_flat(names),
    ensures
        all_flat(selected(pattern, names)),
    decreases names.len(),
{
    if names.len() > 0 {
        assert forall|i: int| 0 <= i < names.drop_last().len() implies flat(
            #[trigger] names.drop_last()[i],
        ) by {
            assert(flat(names[i]));
        }
        lemma_selected_flat(pattern, names.drop_last());
        assert(flat(names[names.len() - 1]));
    }
}

/// A flat variable resolved against flat names is flat.
pub proof fn lemma_resolved_variable_flat(v: VariableV, names: Seq<Seq<char>>)
    requires
        flat_variable_form(v),
        all_flat(names),
        resolved_variable(v, names) is Ok,
    ensures
        flat_variable_form(resolved_variable(v, names)->Ok_0),
{
    match v.kind {
        VarKindV::Select(by, ps) => {
            let ms = selected(ps, names);
            lemma_selected_flat(ps, names);
            let e = gathered(by, ms)->Ok_0;
            assert forall|n: Seq<char>| mentions(e, n) implies flat(n) by {
                lemma_mentions(e, n);
                match e {
                    ExprV::Var(m) => {
                        assert(flat(ms[0]));
                    },
                    ExprV::Add(xs) => {
                        let i = choose|i: int| 0 <= i < xs.len() && mentions(#[trigger] xs[i], n);
                        assert(xs[i] == ExprV::Var(ms[i]));
                        assert(flat(ms[i]));
                    },
                    ExprV::Mul(xs) => {
                        let i = choose|i: int| 0 <= i < xs.len() && mentions(#[trigger] xs[i], n);
                        assert(xs[i] == ExprV::Var(ms[i]));
                        assert(flat(ms[i]));
                    },
                    _ => {},
                }
            }
        },
        _ => {},
    }
}

/// A flat form with its selections resolved is flat.
pub proof fn lemma_resolved_flat(b: CollapsedV)
    requires
        flat_form(b),
        resolved(b) is Ok,
    ensures
        flat_form(resolved(b)->Ok_0),
{
    let c = resolved(b)->Ok_0;
    lemma_resolved(b.variables, keys(b.exposures));
    assert forall|i: int| 0 <= i < c.variables.len() implies flat_variable_form(
        #[trigger] c.variables[i],
    ) by {
        assert(flat_variable_form(b.variables[i]));
        assert(resolved_variable(b.variables[i], keys(b.exposures)) == Ok::<VariableV, Error>(
            c.variables[i],
        ));
        lemma_resolved_variable_flat(b.variables[i], keys(b.exposures));
    }
}

/// What lies below a child lies below the component.
pub proof fn lemma_below_member(a: InstanceV, g: int, j: int)
    requires
        0 <= g < a.children.len(),
        0 <= j < a.children[g].1.len(),
        flat_tree(a),
    ensures
        flat_tree(a.children[g].1[j]),
{
    let x = a.children[g].1[j];
    assert forall|b: InstanceV, depth: nat| below(x, b, depth) implies flat_component(b) by {
        assert(below(a.children[g].1[j], b, ((depth + 1) - 1) as nat));
        assert(below(a, b, depth + 1));
    }
}

/// What lies below a single child lies below the component.
pub proof fn lemma_below_single(a: InstanceV, s: int)
    requires
        0 <= s < a.child.len(),
        flat_tree(a),
    ensures
        flat_tree(a.child[s].1),
{
    let x = a.child[s].1;
    assert forall|b: InstanceV, depth: nat| below(x, b, depth) implies flat_component(b) by {
        assert(below(a.child[s].1, b, ((depth + 1) - 1) as nat));
        assert(below(a, b, depth + 1));
    }
}

/// The members of a group of a flat tree, added under flat labels to a flat
/// form, leave a flat form.
pub proof fn lemma_members_flat(inst: InstanceV, frames: Frames, g: int, m: nat, acc: CollapsedV)
    requires
        flat_tree(inst),
        flat_frames(frames),
        flat_form(acc),
        with_members(inst, frames, g, m, acc) is Ok,
    ensures
        flat_form(with_members(inst, frames, g, m, acc)->Ok_0),
    decreases inst, 1nat, m,
{
    if m == 0 || !(0 <= g < inst.children.len()) || m > inst.children[g].1.len() {
    } else {
        lemma_members_flat(inst, frames, g, (m - 1) as nat, acc);
        let a = with_members(inst, frames, g, (m - 1) as nat, acc)->Ok_0;
        lemma_below_member(inst, g, m - 1);
        lemma_tree_flat(inst.children[g].1[m - 1], frames, None, true);
        let o = collapsed_tree(inst.children[g].1[m - 1], frames, None, true)->Ok_0;
        lemma_merged_flat(a, o);
    }
}

/// The same for the groups.
pub proof fn lemma_groups_flat(inst: InstanceV, frames: Frames, n: nat, acc: CollapsedV)
    requires
        flat_tree(inst),
        flat_frames(frames),
        flat_form(acc),
        with_groups(inst, frames, n, acc) is Ok,
    ensures
        flat_form(with_groups(inst, frames, n, acc)->Ok_0),
    decreases inst, 2nat, n,
{
    if n == 0 || n > inst.children.len() {
    } else {
        lemma_groups_flat(inst, frames, (n - 1) as nat, acc);
        let a = with_groups(inst, frames, (n - 1) as nat, acc)->Ok_0;
        let within = frames.push((inst.children[n - 1].0, Seq::empty()));
        assert(below(inst, inst, 0));
        assert(flat(keys(inst.children)[n - 1]));
        lemma_pushed_flat(frames, inst.children[n - 1].0, Seq::empty());
        lemma_members_flat(inst, within, n - 1, inst.children[n - 1].1.len(), a);
    }
}

/// The same for the single children.
pub proof fn lemma_singles_flat(inst: InstanceV, frames: Frames, n: nat, acc: CollapsedV)
    requires
        flat_tree(inst),
        flat_frames(frames),
        flat_form(acc),
        with_singles(inst, frames, n, acc) is Ok,
    ensures
        flat_form(with_singles(inst, frames, n, acc)->Ok_0),
    decreases inst, 2nat, n,
{
    if n == 0 || n > inst.child.len() {
    } else {
        lemma_singles_flat(inst, frames, (n - 1) as nat, acc);
        let a = with_singles(inst, frames, (n - 1) as nat, acc)->Ok_0;
        lemma_below_single(inst, n - 1);
        assert(below(inst, inst, 0));
        assert(flat(keys(inst.child)[n - 1]));
        lemma_tree_flat_in_slot(inst.child[n - 1].1, frames, inst.child[n - 1].0);
        let o = collapsed_tree(inst.child[n - 1].1, frames, Some(inst.child[n - 1].0), true)->Ok_0;
        lemma_merged_flat(a, o);
    }
}

/// Frames with one more flat label have flat labels.
pub proof fn lemma_pushed_flat(frames: Frames, label: Seq<char>, symbols: Seq<Seq<char>>)
    requires
        flat_frames(frames),
        flat(label),
    ensures
        flat_frames(frames.push((label, symbols))),
{
    let f = frames.push((label, symbols));
    assert forall|i: int| 0 <= i < frame_labels(f).len() implies flat(
        #[trigger] frame_labels(f)[i],
    ) by {
        if i < frames.len() {
            assert(flat(frame_labels(frames)[i]));
        }
    }
}

/// A flat tree in a slot with a flat name, collapsed under flat labels, is
/// flat.
pub proof fn lemma_tree_flat_in_slot(inst: InstanceV, frames: Frames, slot: Seq<char>)
    requires
        flat_tree(inst),
        flat_frames(frames),
        flat(slot),
        collapsed_tree(inst, frames, Some(slot), true) is Ok,
    ensures
        flat_form(collapsed_tree(inst, frames, Some(slot), true)->Ok_0),
    decreases inst, 3nat, 0nat,
{
    assert(below(inst, inst, 0));
    let inner = entered(inst, frames, Some(slot), true);
    lemma_pushed_flat(
        frames,
        scope_label(inst, Some(slot), true),
        local_symbols(inst.component_type),
    );
    lemma_own_flat(inst, inner);
    lemma_groups_flat(inst, inner, inst.children.len(), own(inst, inner));
    let a = with_groups(inst, inner, inst.children.len(), own(inst, inner))->Ok_0;
    lemma_singles_flat(inst, inner, inst.child.len(), a);
    let b = with_singles(inst, inner, inst.child.len(), a)->Ok_0;
    lemma_resolved_flat(b);
}

/// A flat tree collapsed under flat labels is flat.
pub proof fn lemma_tree_flat(inst: InstanceV, frames: Frames, slot: Option<Seq<char>>, add_name: bool)
    requires
        flat_tree(inst),
        flat_frames(frames),
        slot is None,
        collapsed_tree(inst, frames, slot, add_name) is Ok,
    ensures
        flat_form(collapsed_tree(inst, frames, slot, add_name)->Ok_0),
    decreases inst, 3nat, 0nat,
{
    reveal_strlit("Unknown");
    assert(below(inst, inst, 0));
    let inner = entered(inst, frames, slot, add_name);
    lemma_pushed_flat(
        frames,
        scope_label(inst, slot, add_name),
        local_symbols(inst.component_type),
    );
    lemma_own_flat(inst, inner);
    lemma_groups_flat(inst, inner, inst.children.len(), own(inst, inner));
    let a = with_groups(inst, inner, inst.children.len(), own(inst, inner))->Ok_0;
    lemma_singles_flat(inst, inner, inst.child.len(), a);
    let b = with_singles(inst, inner, inst.child.len(), a)->Ok_0;
    lemma_resolved_flat(b);
}

/// Where every name in a tree of components is flat, every symbol in the
/// flat form of the tree is flat: a symbol is put together from the names
/// on the way to it and `_`, and from nothing else.
pub proof fn lemma_flat_namespace(root: InstanceV, use_name: bool)
    requires
        flat_tree(root),
        collapsed(root, use_name) is Ok,
    ensures
        flat_form(collapsed(root, use_name)->Ok_0),
{
    assert(flat_frames(Seq::empty())) by {
        assert(frame_labels(Seq::empty()) =~= Seq::<Seq<char>>::empty());
    }
    lemma_tree_flat(root, Seq::empty(), None, use_name);
}

} // verus!

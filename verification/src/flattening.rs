use vstd::prelude::*;
use crate::collapsed::{
    collapsed_tree,
    entered,
    flat_variable,
    lemma_resolved,
    merged,
    own,
    references,
    resolved_variable,
    with_groups,
    with_members,
    with_singles,
    CollapsedV,
};
use crate::context::{frame_labels, qualified, scope, Frames};
use crate::dict::keys;
use crate::error::Error;
use crate::expr::{ExprV, Number, ZERO_BITS};
use crate::instance::InstanceV;
use crate::path::{prefixed, selected, PathV};
use crate::text::join;
use crate::variable::{SelectBy, VarKindV, VariableV};

verus! {

/// Adding the members of a group leaves the variables that were there where
/// they were.
pub proof fn lemma_members_keep(inst: InstanceV, frames: Frames, g: int, m: nat, acc: CollapsedV)
    requires
        with_members(inst, frames, g, m, acc) is Ok,
    ensures
        acc.variables.is_prefix_of(with_members(inst, frames, g, m, acc)->Ok_0.variables),
    decreases m,
{
    if m == 0 || !(0 <= g < inst.children.len()) || m > inst.children[g].1.len() {
    } else {
        lemma_members_keep(inst, frames, g, (m - 1) as nat, acc);
        let a = with_members(inst, frames, g, (m - 1) as nat, acc)->Ok_0;
        let o = collapsed_tree(inst.children[g].1[m - 1], frames, None, true)->Ok_0;
        assert(a.variables.is_prefix_of(merged(a, o).variables));
    }
}

/// Adding the groups leaves the variables that were there where they were.
pub proof fn lemma_groups_keep(inst: InstanceV, frames: Frames, n: nat, acc: CollapsedV)
    requires
        with_groups(inst, frames, n, acc) is Ok,
    ensures
        acc.variables.is_prefix_of(with_groups(inst, frames, n, acc)->Ok_0.variables),
    decreases n,
{
    if n == 0 || n > inst.children.len() {
    } else {
        lemma_groups_keep(inst, frames, (n - 1) as nat, acc);
        let a = with_groups(inst, frames, (n - 1) as nat, acc)->Ok_0;
        lemma_members_keep(
            inst,
            frames.push((inst.children[n - 1].0, Seq::empty())),
            n - 1,
            inst.children[n - 1].1.len(),
            a,
        );
    }
}

/// Adding the single children leaves the variables that were there where
/// they were.
pub proof fn lemma_singles_keep(inst: InstanceV, frames: Frames, n: nat, acc: CollapsedV)
    requires
        with_singles(inst, frames, n, acc) is Ok,
    ensures
        acc.variables.is_prefix_of(with_singles(inst, frames, n, acc)->Ok_0.variables),
    decreases n,
{
    if n == 0 || n > inst.child.len() {
    } else {
        lemma_singles_keep(inst, frames, (n - 1) as nat, acc);
        let a = with_singles(inst, frames, (n - 1) as nat, acc)->Ok_0;
        let o = collapsed_tree(inst.child[n - 1].1, frames, Some(inst.child[n - 1].0), true)->Ok_0;
        assert(a.variables.is_prefix_of(merged(a, o).variables));
    }
}

/// The variables of a collapsed tree start with the variables of its root,
/// in the order in which the type of the root declares them: each under its
/// flat name, and each selection resolved against the exposures of the whole
/// tree.
pub proof fn lemma_own_variables_first(
    inst: InstanceV,
    frames: Frames,
    slot: Option<Seq<char>>,
    add_name: bool,
    i: int,
)
    requires
        collapsed_tree(inst, frames, slot, add_name) is Ok,
        0 <= i < inst.component_type.variables.len(),
    ensures
        i < collapsed_tree(inst, frames, slot, add_name)->Ok_0.variables.len(),
        resolved_variable(
            flat_variable(
                inst.component_type.variables[i],
                entered(inst, frames, slot, add_name),
            ),
            keys(collapsed_tree(inst, frames, slot, add_name)->Ok_0.exposures),
        ) == Ok::<VariableV, Error>(
            collapsed_tree(inst, frames, slot, add_name)->Ok_0.variables[i],
        ),
{
    let inner = entered(inst, frames, slot, add_name);
    let start = own(inst, inner);
    let a = with_groups(inst, inner, inst.children.len(), start)->Ok_0;
    let b = with_singles(inst, inner, inst.child.len(), a)->Ok_0;
    lemma_groups_keep(inst, inner, inst.children.len(), start);
    lemma_singles_keep(inst, inner, inst.child.len(), a);
    assert(start.variables[i] == flat_variable(inst.component_type.variables[i], inner));
    assert(a.variables[i] == start.variables[i]);
    assert(b.variables[i] == a.variables[i]);
    lemma_resolved(b.variables, keys(b.exposures));
}

/// A variable that selects with the reduction `add` is, after collapse, the
/// sum of references to exactly those exposures of the collapsed tree that
/// lie on its pattern, in the order of the exposures; where none does, it is
/// zero.
pub proof fn lemma_selected_sum(
    inst: InstanceV,
    frames: Frames,
    slot: Option<Seq<char>>,
    add_name: bool,
    i: int,
    pattern: Seq<PathV>,
)
    requires
        collapsed_tree(inst, frames, slot, add_name) is Ok,
        0 <= i < inst.component_type.variables.len(),
        inst.component_type.variables[i].kind == VarKindV::Select(SelectBy::Sum, pattern),
    ensures
        ({
            let c = collapsed_tree(inst, frames, slot, add_name)->Ok_0;
            let found = selected(
                prefixed(scope(entered(inst, frames, slot, add_name)), pattern),
                keys(c.exposures),
            );
            &&& i < c.variables.len()
            &&& c.variables[i].kind == VarKindV::Derived(
                Seq::empty(),
                Some(
                    if found.len() == 0 {
                        ExprV::Num(Number { bits: ZERO_BITS })
                    } else {
                        ExprV::Add(references(found))
                    },
                ),
            )
        }),
{
    lemma_own_variables_first(inst, frames, slot, add_name, i);
}

/// Whether a variable goes by the name `n`.
pub open spec fn named(vars: Seq<VariableV>, n: Seq<char>) -> bool {
    exists|k: int| 0 <= k < vars.len() && (#[trigger] vars[k]).name == n
}

/// What ends a text that is put together from two is the second.
pub proof fn lemma_suffix(x: Seq<char>, t: Seq<char>)
    ensures
        t.is_suffix_of(x + t),
{
    assert((x + t).subrange((x + t).len() - t.len(), (x + t).len() as int) =~= t);
}

/// The flat name of a name declared in a scope with a label ends with the
/// label, `_` and the name.
pub proof fn lemma_qualified_ends(
    frames: Frames,
    label: Seq<char>,
    symbols: Seq<Seq<char>>,
    name: Seq<char>,
)
    requires
        label.len() > 0,
    ensures
        (label + "_"@ + name).is_suffix_of(qualified(frames.push((label, symbols)), name)),
{
    let inner = frames.push((label, symbols));
    let outer = scope(frames);
    assert(frame_labels(inner).drop_last() =~= frame_labels(frames));
    assert(frame_labels(inner).last() == label);
    assert(scope(inner) == outer.push(label));
    let parts = outer.push(label).push(name);
    assert(parts.drop_last() =~= outer.push(label));
    assert(outer.push(label).drop_last() =~= outer);
    if outer.len() == 0 {
        assert(join(outer.push(label), "_"@) == label);
        assert(join(parts, "_"@) =~= Seq::<char>::empty() + (label + "_"@ + name));
        lemma_suffix(Seq::empty(), label + "_"@ + name);
    } else {
        let head = join(outer, "_"@) + "_"@;
        assert(join(outer.push(label), "_"@) == join(outer, "_"@) + "_"@ + label);
        assert(join(parts, "_"@) == join(outer.push(label), "_"@) + "_"@ + name);
        assert(join(parts, "_"@) =~= head + (label + "_"@ + name));
        lemma_suffix(head, label + "_"@ + name);
    }
}

/// A name among the variables of a member of a group is a name among the
/// variables after the group has been added.
pub proof fn lemma_members_embed(
    inst: InstanceV,
    frames: Frames,
    g: int,
    m: nat,
    acc: CollapsedV,
    j: int,
    n: Seq<char>,
)
    requires
        0 <= g < inst.children.len(),
        0 <= j < m <= inst.children[g].1.len(),
        with_members(inst, frames, g, m, acc) is Ok,
    ensures
        collapsed_tree(inst.children[g].1[j], frames, None, true) is Ok,
        named(collapsed_tree(inst.children[g].1[j], frames, None, true)->Ok_0.variables, n)
            ==> named(with_members(inst, frames, g, m, acc)->Ok_0.variables, n),
    decreases m,
{
    let a = with_members(inst, frames, g, (m - 1) as nat, acc)->Ok_0;
    let o = collapsed_tree(inst.children[g].1[m - 1], frames, None, true)->Ok_0;
    let r = with_members(inst, frames, g, m, acc)->Ok_0;
    assert(r == merged(a, o));
    if j == m - 1 {
        if named(o.variables, n) {
            let k = choose|k: int| 0 <= k < o.variables.len() && (#[trigger] o.variables[k]).name == n;
            assert(r.variables[a.variables.len() + k] == o.variables[k]);
        }
    } else {
        lemma_members_embed(inst, frames, g, (m - 1) as nat, acc, j, n);
        if named(a.variables, n) {
            let k = choose|k: int| 0 <= k < a.variables.len() && (#[trigger] a.variables[k]).name == n;
            assert(r.variables[k] == a.variables[k]);
        }
    }
}

/// A name that is there before the members of a group are added is there
/// after.
pub proof fn lemma_members_names(
    inst: InstanceV,
    frames: Frames,
    g: int,
    m: nat,
    acc: CollapsedV,
    n: Seq<char>,
)
    requires
        with_members(inst, frames, g, m, acc) is Ok,
        named(acc.variables, n),
    ensures
        named(with_members(inst, frames, g, m, acc)->Ok_0.variables, n),
{
    lemma_members_keep(inst, frames, g, m, acc);
    let r = with_members(inst, frames, g, m, acc)->Ok_0;
    let k = choose|k: int| 0 <= k < acc.variables.len() && (#[trigger] acc.variables[k]).name == n;
    assert(r.variables[k] == acc.variables[k]);
}

/// A name that is there before single children are added is there after.
pub proof fn lemma_singles_names(
    inst: InstanceV,
    frames: Frames,
    count: nat,
    acc: CollapsedV,
    n: Seq<char>,
)
    requires
        with_singles(inst, frames, count, acc) is Ok,
        named(acc.variables, n),
    ensures
        named(with_singles(inst, frames, count, acc)->Ok_0.variables, n),
{
    lemma_singles_keep(inst, frames, count, acc);
    let r = with_singles(inst, frames, count, acc)->Ok_0;
    let k = choose|k: int| 0 <= k < acc.variables.len() && (#[trigger] acc.variables[k]).name == n;
    assert(r.variables[k] == acc.variables[k]);
}

/// A name among the variables of a member of a group is a name among the
/// variables after the groups have been added.
pub proof fn lemma_groups_embed(
    inst: InstanceV,
    frames: Frames,
    count: nat,
    acc: CollapsedV,
    g: int,
    j: int,
    n: Seq<char>,
)
    requires
        0 <= g < count <= inst.children.len(),
        0 <= j < inst.children[g].1.len(),
        with_groups(inst, frames, count, acc) is Ok,
    ensures
        collapsed_tree(
            inst.children[g].1[j],
            frames.push((inst.children[g].0, Seq::empty())),
            None,
            true,
        ) is Ok,
        named(
            collapsed_tree(
                inst.children[g].1[j],
                frames.push((inst.children[g].0, Seq::empty())),
                None,
                true,
            )->Ok_0.variables,
            n,
        ) ==> named(with_groups(inst, frames, count, acc)->Ok_0.variables, n),
    decreases count,
{
    let a = with_groups(inst, frames, (count - 1) as nat, acc)->Ok_0;
    let last = frames.push((inst.children[count - 1].0, Seq::empty()));
    if g == count - 1 {
        lemma_members_embed(inst, last, g, inst.children[g].1.len(), a, j, n);
    } else {
        lemma_groups_embed(inst, frames, (count - 1) as nat, acc, g, j, n);
        if named(a.variables, n) {
            lemma_members_names(inst, last, count - 1, inst.children[count - 1].1.len(), a, n);
        }
    }
}

/// A name among the variables of a single child is a name among the
/// variables after the single children have been added.
pub proof fn lemma_singles_embed(
    inst: InstanceV,
    frames: Frames,
    count: nat,
    acc: CollapsedV,
    s: int,
    n: Seq<char>,
)
    requires
        0 <= s < count <= inst.child.len(),
        with_singles(inst, frames, count, acc) is Ok,
    ensures
        collapsed_tree(inst.child[s].1, frames, Some(inst.child[s].0), true) is Ok,
        named(
            collapsed_tree(inst.child[s].1, frames, Some(inst.child[s].0), true)->Ok_0.variables,
            n,
        ) ==> named(with_singles(inst, frames, count, acc)->Ok_0.variables, n),
    decreases count,
{
    let a = with_singles(inst, frames, (count - 1) as nat, acc)->Ok_0;
    let o = collapsed_tree(
        inst.child[count - 1].1,
        frames,
        Some(inst.child[count - 1].0),
        true,
    )->Ok_0;
    let r = with_singles(inst, frames, count, acc)->Ok_0;
    assert(r == merged(a, o));
    if s == count - 1 {
        if named(o.variables, n) {
            let k = choose|k: int| 0 <= k < o.variables.len() && (#[trigger] o.variables[k]).name == n;
            assert(r.variables[a.variables.len() + k] == o.variables[k]);
        }
    } else {
        lemma_singles_embed(inst, frames, (count - 1) as nat, acc, s, n);
        if named(a.variables, n) {
            let k = choose|k: int| 0 <= k < a.variables.len() && (#[trigger] a.variables[k]).name == n;
            assert(r.variables[k] == a.variables[k]);
        }
    }
}

/// Resolving the selections of a tree keeps the names of its variables.
pub proof fn lemma_tree_names(
    inst: InstanceV,
    frames: Frames,
    slot: Option<Seq<char>>,
    add_name: bool,
    before: CollapsedV,
    n: Seq<char>,
)
    requires
        collapsed_tree(inst, frames, slot, add_name) is Ok,
        with_groups(
            inst,
            entered(inst, frames, slot, add_name),
            inst.children.len(),
            own(inst, entered(inst, frames, slot, add_name)),
        ) is Ok,
        with_singles(
            inst,
            entered(inst, frames, slot, add_name),
            inst.child.len(),
            with_groups(
                inst,
                entered(inst, frames, slot, add_name),
                inst.children.len(),
                own(inst, entered(inst, frames, slot, add_name)),
            )->Ok_0,
        ) == Ok::<CollapsedV, Error>(before),
        named(before.variables, n),
    ensures
        named(collapsed_tree(inst, frames, slot, add_name)->Ok_0.variables, n),
{
    let c = collapsed_tree(inst, frames, slot, add_name)->Ok_0;
    lemma_resolved(before.variables, keys(before.exposures));
    let k = choose|k: int|
        0 <= k < before.variables.len() && (#[trigger] before.variables[k]).name == n;
    assert(resolved_variable(before.variables[k], keys(before.exposures)) == Ok::<
        VariableV,
        Error,
    >(c.variables[k]));
    assert(c.variables[k].name == n);
}

/// The component `b` lies `depth` steps below `a`.
pub open spec fn below(a: InstanceV, b: InstanceV, depth: nat) -> bool
    decreases depth,
{
    if depth == 0 {
        a == b
    } else {
        ||| exists|g: int, j: int|
            0 <= g < a.children.len() && 0 <= j < a.children[g].1.len() && below(
                #[trigger] a.children[g].1[j],
                b,
                (depth - 1) as nat,
            )
        ||| exists|s: int|
            0 <= s < a.child.len() && below((#[trigger] a.child[s]).1, b, (depth - 1) as nat)
    }
}

/// Whether a variable has a name that ends with `tail`.
pub open spec fn named_to_end(vars: Seq<VariableV>, tail: Seq<char>) -> bool {
    exists|n: Seq<char>| named(vars, n) && tail.is_suffix_of(n)
}

/// Where a component with the id `id` lies anywhere below the root of a tree
/// that collapses, each variable `v` that it declares has, in the flat form
/// of the tree, a name that ends with `id`, `_` and `v`.
pub proof fn lemma_names_keep_nearest_label(
    a: InstanceV,
    frames: Frames,
    slot: Option<Seq<char>>,
    add_name: bool,
    b: InstanceV,
    depth: nat,
    id: Seq<char>,
    i: int,
)
    requires
        collapsed_tree(a, frames, slot, add_name) is Ok,
        below(a, b, depth),
        depth > 0 || add_name,
        b.id == Some(id),
        id.len() > 0,
        0 <= i < b.component_type.variables.len(),
    ensures
        named_to_end(
            collapsed_tree(a, frames, slot, add_name)->Ok_0.variables,
            id + "_"@ + b.component_type.variables[i].name,
        ),
    decreases depth,
{
    let c = collapsed_tree(a, frames, slot, add_name)->Ok_0;
    let inner = entered(a, frames, slot, add_name);
    let tail = id + "_"@ + b.component_type.variables[i].name;
    if depth == 0 {
        lemma_own_variables_first(a, frames, slot, add_name, i);
        let v = a.component_type.variables[i];
        lemma_qualified_ends(frames, id, crate::collapsed::local_symbols(a.component_type), v.name);
        assert(c.variables[i].name == qualified(inner, v.name));
        assert(named(c.variables, qualified(inner, v.name)));
    } else {
        let start = own(a, inner);
        let grouped = with_groups(a, inner, a.children.len(), start)->Ok_0;
        let all = with_singles(a, inner, a.child.len(), grouped)->Ok_0;
        if exists|g: int, j: int|
            0 <= g < a.children.len() && 0 <= j < a.children[g].1.len() && below(
                #[trigger] a.children[g].1[j],
                b,
                (depth - 1) as nat,
            ) {
            let (g, j) = choose|g: int, j: int|
                0 <= g < a.children.len() && 0 <= j < a.children[g].1.len() && below(
                    #[trigger] a.children[g].1[j],
                    b,
                    (depth - 1) as nat,
                );
            let member = a.children[g].1[j];
            let within = inner.push((a.children[g].0, Seq::empty()));
            lemma_groups_embed(a, inner, a.children.len(), start, g, j, Seq::empty());
            lemma_names_keep_nearest_label(
                member,
                within,
                None,
                true,
                b,
                (depth - 1) as nat,
                id,
                i,
            );
            let o = collapsed_tree(member, within, None, true)->Ok_0;
            let n = choose|n: Seq<char>| named(o.variables, n) && tail.is_suffix_of(n);
            lemma_groups_embed(a, inner, a.children.len(), start, g, j, n);
            lemma_singles_names(a, inner, a.child.len(), grouped, n);
            lemma_tree_names(a, frames, slot, add_name, all, n);
        } else {
            let s = choose|s: int|
                0 <= s < a.child.len() && below((#[trigger] a.child[s]).1, b, (depth - 1) as nat);
            let single = a.child[s].1;
            lemma_singles_embed(a, inner, a.child.len(), grouped, s, Seq::empty());
            lemma_names_keep_nearest_label(
                single,
                inner,
                Some(a.child[s].0),
                true,
                b,
                (depth - 1) as nat,
                id,
                i,
            );
            let o = collapsed_tree(single, inner, Some(a.child[s].0), true)->Ok_0;
            let n = choose|n: Seq<char>| named(o.variables, n) && tail.is_suffix_of(n);
            lemma_singles_embed(a, inner, a.child.len(), grouped, s, n);
            lemma_tree_names(a, frames, slot, add_name, all, n);
        }
    }
}

} // verus!

use vstd::prelude::*;
use crate::collapsed::{
    collapsed, collapsed_tree, entered, local_symbols, own, with_groups, with_members,
    with_singles, CollapsedV,
};
use crate::context::{frame_labels, qualified, scope, Frames};
use crate::dict::lookup;
use crate::error::Error;
use crate::flattening::{
    lemma_groups_embed, lemma_own_variables_first, lemma_singles_embed, lemma_singles_names,
    lemma_tree_names, named,
};
use crate::instance::{InstanceV, KineticV};
use crate::path::labels;
use crate::text::join;
use crate::transitions::{
    origin, transition, transitions_along, transitions_for, transitions_of, walked, Transition,
    Walk,
};

verus! {

/// Adding the members of a group adds no transition.
pub proof fn lemma_members_transitions(
    inst: InstanceV,
    frames: Frames,
    g: int,
    m: nat,
    acc: CollapsedV,
)
    requires
        with_members(inst, frames, g, m, acc) is Ok,
    ensures
        with_members(inst, frames, g, m, acc)->Ok_0.transitions == acc.transitions,
    decreases m,
{
    if m == 0 || !(0 <= g < inst.children.len()) || m > inst.children[g].1.len() {
    } else {
        lemma_members_transitions(inst, frames, g, (m - 1) as nat, acc);
    }
}

/// Adding the groups adds no transition.
pub proof fn lemma_groups_transitions(inst: InstanceV, frames: Frames, n: nat, acc: CollapsedV)
    requires
        with_groups(inst, frames, n, acc) is Ok,
    ensures
        with_groups(inst, frames, n, acc)->Ok_0.transitions == acc.transitions,
    decreases n,
{
    if n == 0 || n > inst.children.len() {
    } else {
        lemma_groups_transitions(inst, frames, (n - 1) as nat, acc);
        let a = with_groups(inst, frames, (n - 1) as nat, acc)->Ok_0;
        lemma_members_transitions(
            inst,
            frames.push((inst.children[n - 1].0, Seq::empty())),
            n - 1,
            inst.children[n - 1].1.len(),
            a,
        );
    }
}

/// Adding the single children adds no transition.
pub proof fn lemma_singles_transitions(inst: InstanceV, frames: Frames, n: nat, acc: CollapsedV)
    requires
        with_singles(inst, frames, n, acc) is Ok,
    ensures
        with_singles(inst, frames, n, acc)->Ok_0.transitions == acc.transitions,
    decreases n,
{
    if n == 0 || n > inst.child.len() {
    } else {
        lemma_singles_transitions(inst, frames, (n - 1) as nat, acc);
    }
}

/// A tree collapsed from inside has no transitions yet.
pub proof fn lemma_tree_transitions(
    inst: InstanceV,
    frames: Frames,
    slot: Option<Seq<char>>,
    add_name: bool,
)
    requires
        collapsed_tree(inst, frames, slot, add_name) is Ok,
    ensures
        collapsed_tree(inst, frames, slot, add_name)->Ok_0.transitions == Seq::<
            Transition,
        >::empty(),
{
    let inner = entered(inst, frames, slot, add_name);
    let start = own(inst, inner);
    lemma_groups_transitions(inst, inner, inst.children.len(), start);
    let a = with_groups(inst, inner, inst.children.len(), start)->Ok_0;
    lemma_singles_transitions(inst, inner, inst.child.len(), a);
}

/// Each transition along a walk is the transition of one of its edges.
pub proof fn lemma_along_member(k: KineticV, walk: Walk, t: int)
    requires
        transitions_along(k, walk) is Ok,
        0 <= t < transitions_along(k, walk)->Ok_0.len(),
    ensures
        transitions_along(k, walk)->Ok_0.len() == walk.len(),
        transition(k, walk[t].0, walk[t].1) == Ok::<Transition, Error>(
            transitions_along(k, walk)->Ok_0[t],
        ),
    decreases walk.len(),
{
    lemma_along_length(k, walk);
    if t < walk.len() - 1 {
        lemma_along_member(k, walk.drop_last(), t);
    }
}

/// A walk has as many transitions as it has edges.
pub proof fn lemma_along_length(k: KineticV, walk: Walk)
    requires
        transitions_along(k, walk) is Ok,
    ensures
        transitions_along(k, walk)->Ok_0.len() == walk.len(),
    decreases walk.len(),
{
    if walk.len() > 0 {
        lemma_along_length(k, walk.drop_last());
    }
}

/// Each transition of several schemes is a transition of one of them.
pub proof fn lemma_of_member(ks: Seq<KineticV>, root: InstanceV, t: int)
    requires
        transitions_of(ks, root) is Ok,
        0 <= t < transitions_of(ks, root)->Ok_0.len(),
    ensures
        exists|q: int, e: int|
            0 <= q < ks.len() && transitions_for(#[trigger] ks[q], root) is Ok && 0 <= e
                < transitions_for(ks[q], root)->Ok_0.len() && #[trigger] transitions_for(
                ks[q],
                root,
            )->Ok_0[e] == transitions_of(ks, root)->Ok_0[t],
    decreases ks.len(),
{
    let head = transitions_of(ks.drop_last(), root)->Ok_0;
    let last = transitions_for(ks.last(), root)->Ok_0;
    if t < head.len() {
        lemma_of_member(ks.drop_last(), root, t);
        let (q, e) = choose|q: int, e: int|
            0 <= q < ks.drop_last().len() && transitions_for(
                #[trigger] ks.drop_last()[q],
                root,
            ) is Ok && 0 <= e < transitions_for(ks.drop_last()[q], root)->Ok_0.len()
                && #[trigger] transitions_for(ks.drop_last()[q], root)->Ok_0[e] == head[t];
        assert(ks[q] == ks.drop_last()[q]);
    } else {
        let q = ks.len() - 1;
        let e = t - head.len();
        assert(transitions_for(ks[q], root)->Ok_0[e] == transitions_of(ks, root)->Ok_0[t]);
    }
}

/// Whether the collapse of the tree below `a`, seen from inside `frames`,
/// comes to the component `d`, `depth` steps below `a`, and is inside `inner`
/// when it has entered `d`.
pub open spec fn opens(
    a: InstanceV,
    frames: Frames,
    slot: Option<Seq<char>>,
    add_name: bool,
    d: InstanceV,
    inner: Frames,
    depth: nat,
) -> bool
    decreases depth,
{
    if depth == 0 {
        a == d && inner == entered(a, frames, slot, add_name)
    } else {
        ||| exists|g: int, j: int|
            0 <= g < a.children.len() && 0 <= j < a.children[g].1.len() && opens(
                #[trigger] a.children[g].1[j],
                entered(a, frames, slot, add_name).push((a.children[g].0, Seq::empty())),
                None,
                true,
                d,
                inner,
                (depth - 1) as nat,
            )
        ||| exists|s: int|
            0 <= s < a.child.len() && opens(
                (#[trigger] a.child[s]).1,
                entered(a, frames, slot, add_name),
                Some(a.child[s].0),
                true,
                d,
                inner,
                (depth - 1) as nat,
            )
    }
}

/// The name of a variable of a member of a group, as the collapse gives it
/// when it is inside `inner` at the component that holds the group.
pub open spec fn member_variable(d: InstanceV, inner: Frames, g: int, j: int, i: int) -> Seq<char> {
    qualified(
        entered(d.children[g].1[j], inner.push((d.children[g].0, Seq::empty())), None, true),
        d.children[g].1[j].component_type.variables[i].name,
    )
}

/// A variable of a member of a group of a component that the collapse of a
/// tree comes to is a variable of the flat form of the tree, under the name
/// that it has where it stands.
pub proof fn lemma_member_variable(
    a: InstanceV,
    frames: Frames,
    slot: Option<Seq<char>>,
    add_name: bool,
    d: InstanceV,
    inner: Frames,
    depth: nat,
    g: int,
    j: int,
    i: int,
)
    requires
        collapsed_tree(a, frames, slot, add_name) is Ok,
        opens(a, frames, slot, add_name, d, inner, depth),
        0 <= g < d.children.len(),
        0 <= j < d.children[g].1.len(),
        0 <= i < d.children[g].1[j].component_type.variables.len(),
    ensures
        named(
            collapsed_tree(a, frames, slot, add_name)->Ok_0.variables,
            member_variable(d, inner, g, j, i),
        ),
    decreases depth,
{
    let n = member_variable(d, inner, g, j, i);
    let here = entered(a, frames, slot, add_name);
    let start = own(a, here);
    let grouped = with_groups(a, here, a.children.len(), start)->Ok_0;
    let all = with_singles(a, here, a.child.len(), grouped)->Ok_0;
    if depth == 0 {
        let x = a.children[g].1[j];
        let within = here.push((a.children[g].0, Seq::empty()));
        lemma_groups_embed(a, here, a.children.len(), start, g, j, Seq::empty());
        let o = collapsed_tree(x, within, None, true)->Ok_0;
        lemma_own_variables_first(x, within, None, true, i);
        assert(o.variables[i].name == n);
        assert(named(o.variables, n));
        lemma_groups_embed(a, here, a.children.len(), start, g, j, n);
        lemma_singles_names(a, here, a.child.len(), grouped, n);
        lemma_tree_names(a, frames, slot, add_name, all, n);
    } else {
        if exists|g1: int, j1: int|
            0 <= g1 < a.children.len() && 0 <= j1 < a.children[g1].1.len() && opens(
                #[trigger] a.children[g1].1[j1],
                here.push((a.children[g1].0, Seq::empty())),
                None,
                true,
                d,
                inner,
                (depth - 1) as nat,
            ) {
            let (g1, j1) = choose|g1: int, j1: int|
                0 <= g1 < a.children.len() && 0 <= j1 < a.children[g1].1.len() && opens(
                    #[trigger] a.children[g1].1[j1],
                    here.push((a.children[g1].0, Seq::empty())),
                    None,
                    true,
                    d,
                    inner,
                    (depth - 1) as nat,
                );
            let within = here.push((a.children[g1].0, Seq::empty()));
            lemma_groups_embed(a, here, a.children.len(), start, g1, j1, n);
            lemma_member_variable(
                a.children[g1].1[j1],
                within,
                None,
                true,
                d,
                inner,
                (depth - 1) as nat,
                g,
                j,
                i,
            );
            lemma_singles_names(a, here, a.child.len(), grouped, n);
            lemma_tree_names(a, frames, slot, add_name, all, n);
        } else {
            let s = choose|s: int|
                0 <= s < a.child.len() && opens(
                    (#[trigger] a.child[s]).1,
                    here,
                    Some(a.child[s].0),
                    true,
                    d,
                    inner,
                    (depth - 1) as nat,
                );
            lemma_singles_embed(a, here, a.child.len(), grouped, s, n);
            lemma_member_variable(
                a.child[s].1,
                here,
                Some(a.child[s].0),
                true,
                d,
                inner,
                (depth - 1) as nat,
                g,
                j,
                i,
            );
            lemma_tree_names(a, frames, slot, add_name, all, n);
        }
    }
}

/// A name under two labels and more is the labels before the last joined,
/// then the last label and the name.
pub proof fn lemma_join_nested(before: Seq<Seq<char>>, a: Seq<char>, b: Seq<char>)
    requires
        before.len() >= 1,
    ensures
        join(before.push(a).push(b), "_"@) == join(seq![join(before, "_"@), a, b], "_"@),
{
    let whole = before.push(a).push(b);
    assert(whole.drop_last() =~= before.push(a));
    assert(before.push(a).drop_last() =~= before);
    let short = seq![join(before, "_"@), a, b];
    assert(short.drop_last() =~= seq![join(before, "_"@), a]);
    assert(seq![join(before, "_"@), a].drop_last() =~= seq![join(before, "_"@)]);
    assert(join(seq![join(before, "_"@)], "_"@) == join(before, "_"@));
    assert(join(seq![join(before, "_"@), a], "_"@) == join(before, "_"@) + "_"@ + a);
    assert(join(before.push(a), "_"@) == join(before, "_"@) + "_"@ + a);
}

/// Whether the component `j` of `xs` goes by the id `id` and declares the
/// variable `state` at `i`.
pub open spec fn is_state(
    xs: Seq<InstanceV>,
    j: int,
    i: int,
    id: Option<Seq<char>>,
    state: Seq<char>,
) -> bool {
    &&& 0 <= j < xs.len()
    &&& id is Some
    &&& id->Some_0.len() > 0
    &&& xs[j].id == id
    &&& 0 <= i < xs[j].component_type.variables.len()
    &&& xs[j].component_type.variables[i].name == state
}

/// Whether the nodes of the scheme `k` are the children of the group `g` of
/// the component `d`, to which the collapse of the tree comes, and the edge
/// `edge` starts and ends at two of them that declare the state variable of
/// the scheme.
pub open spec fn joins_states_at(
    root: InstanceV,
    use_name: bool,
    k: KineticV,
    edge: InstanceV,
    d: InstanceV,
    inner: Frames,
    depth: nat,
    g: int,
) -> bool {
    &&& opens(root, Seq::empty(), None, use_name, d, inner, depth)
    &&& 0 <= g < d.children.len()
    &&& d.children[g].0.len() > 0
    &&& labels(k.node) == scope(inner).push(d.children[g].0)
    &&& exists|j: int, i: int|
        is_state(d.children[g].1, j, i, lookup(edge.attributes, "from"@), k.state)
    &&& exists|j: int, i: int|
        is_state(d.children[g].1, j, i, lookup(edge.attributes, "to"@), k.state)
}

/// Whether the edge joins two states of the group of nodes of the scheme.
pub open spec fn joins_states(root: InstanceV, use_name: bool, k: KineticV, edge: InstanceV) -> bool {
    exists|d: InstanceV, inner: Frames, depth: nat, g: int|
        joins_states_at(root, use_name, k, edge, d, inner, depth, g)
}

/// The state variable of a node of a scheme has, in the flat form of the
/// tree, the name that a transition of the scheme gives to a state at that
/// node.
pub proof fn lemma_state_is_variable(
    root: InstanceV,
    use_name: bool,
    k: KineticV,
    d: InstanceV,
    inner: Frames,
    depth: nat,
    g: int,
    j: int,
    i: int,
)
    requires
        collapsed_tree(root, Seq::empty(), None, use_name) is Ok,
        opens(root, Seq::empty(), None, use_name, d, inner, depth),
        0 <= g < d.children.len(),
        d.children[g].0.len() > 0,
        labels(k.node) == scope(inner).push(d.children[g].0),
        is_state(d.children[g].1, j, i, d.children[g].1[j].id, k.state),
    ensures
        named(
            collapsed_tree(root, Seq::empty(), None, use_name)->Ok_0.variables,
            join(seq![join(labels(k.node), "_"@), d.children[g].1[j].id->Some_0, k.state], "_"@),
        ),
{
    let x = d.children[g].1[j];
    let id = x.id->Some_0;
    let group = d.children[g].0;
    let within = inner.push((group, Seq::empty()));
    let inside = entered(x, within, None, true);
    lemma_member_variable(root, Seq::empty(), None, use_name, d, inner, depth, g, j, i);
    assert(inside == within.push((id, local_symbols(x.component_type))));
    assert(frame_labels(within).drop_last() =~= frame_labels(inner));
    assert(scope(within) == scope(inner).push(group));
    assert(frame_labels(inside).drop_last() =~= frame_labels(within));
    assert(scope(inside) == scope(within).push(id));
    lemma_join_nested(scope(within), id, k.state);
}

/// Where every edge that a scheme of the flat form reaches joins two states
/// of the group of nodes of the scheme, every transition of the flat form
/// starts and ends at a symbol that is the name of a variable of the flat
/// form.
pub proof fn lemma_transitions_join_variables(root: InstanceV, use_name: bool, t: int)
    requires
        collapsed(root, use_name) is Ok,
        forall|q: int, e: int|
            0 <= q < collapsed(root, use_name)->Ok_0.kinetic.len() && walked(
                origin(root),
                (#[trigger] collapsed(root, use_name)->Ok_0.kinetic[q]).edge,
            ) is Ok && 0 <= e < walked(
                origin(root),
                collapsed(root, use_name)->Ok_0.kinetic[q].edge,
            )->Ok_0.len() ==> joins_states(
                root,
                use_name,
                collapsed(root, use_name)->Ok_0.kinetic[q],
                (#[trigger] walked(
                    origin(root),
                    collapsed(root, use_name)->Ok_0.kinetic[q].edge,
                )->Ok_0[e]).1,
            ),
        0 <= t < collapsed(root, use_name)->Ok_0.transitions.len(),
    ensures
        named(
            collapsed(root, use_name)->Ok_0.variables,
            collapsed(root, use_name)->Ok_0.transitions[t].0,
        ),
        named(
            collapsed(root, use_name)->Ok_0.variables,
            collapsed(root, use_name)->Ok_0.transitions[t].1,
        ),
{
    let c = collapsed(root, use_name)->Ok_0;
    let tree = collapsed_tree(root, Seq::empty(), None, use_name)->Ok_0;
    lemma_tree_transitions(root, Seq::empty(), None, use_name);
    let ts = transitions_of(tree.kinetic, root)->Ok_0;
    assert(c.transitions =~= ts);
    lemma_of_member(tree.kinetic, root, t);
    let (q, e) = choose|q: int, e: int|
        0 <= q < tree.kinetic.len() && transitions_for(#[trigger] tree.kinetic[q], root) is Ok
            && 0 <= e < transitions_for(tree.kinetic[q], root)->Ok_0.len()
            && #[trigger] transitions_for(tree.kinetic[q], root)->Ok_0[e] == ts[t];
    let k = tree.kinetic[q];
    assert(k == c.kinetic[q]);
    let w = walked(origin(root), k.edge)->Ok_0;
    lemma_along_member(k, w, e);
    let edge = w[e].1;
    assert(joins_states(root, use_name, k, edge));
    let (d, inner, depth, g) = choose|d: InstanceV, inner: Frames, depth: nat, g: int|
        joins_states_at(root, use_name, k, edge, d, inner, depth, g);
    let from = lookup(edge.attributes, "from"@);
    let to = lookup(edge.attributes, "to"@);
    let (j1, i1) = choose|j: int, i: int| is_state(d.children[g].1, j, i, from, k.state);
    lemma_state_is_variable(root, use_name, k, d, inner, depth, g, j1, i1);
    let (j2, i2) = choose|j: int, i: int| is_state(d.children[g].1, j, i, to, k.state);
    lemma_state_is_variable(root, use_name, k, d, inner, depth, g, j2, i2);
}

} // verus!

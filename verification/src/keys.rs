use vstd::prelude::*;
use crate::collapsed::{
    collapsed_tree, entered, flat_entries, flat_lookups, merged, own, with_groups, with_members,
    with_singles, CollapsedV,
};
use crate::context::Frames;
use crate::dict::{distinct, lemma_put_all_distinct};
use crate::expr::QuantityV;
use crate::instance::InstanceV;
use crate::retention::lemma_kept_parameters;
use crate::simplify::{kept_parameters, retained, simplified_form};

verus! {

/// Whether no name stands twice among the exposures, among the parameters,
/// among the constants or among the attributes of a flat form.
pub open spec fn well_formed(c: CollapsedV) -> bool {
    &&& distinct(c.exposures)
    &&& distinct(c.parameters)
    &&& distinct(c.constants)
    &&& distinct(c.attributes)
}

/// What a component contributes by itself is well formed.
pub proof fn lemma_own_well_formed(inst: InstanceV, frames: Frames)
    ensures
        well_formed(own(inst, frames)),
{
    let ct = inst.component_type;
    lemma_put_all_distinct(Seq::empty(), flat_entries(ct.exposures, frames));
    lemma_put_all_distinct(Seq::empty(), flat_entries(ct.constants, frames));
    lemma_put_all_distinct(
        Seq::empty(),
        flat_lookups(ct.parameters, inst.parameters, frames),
    );
    lemma_put_all_distinct(
        Seq::empty(),
        flat_lookups(ct.attributes, inst.attributes, frames),
    );
}

/// A well-formed flat form stays so when another is added to it.
pub proof fn lemma_merged_well_formed(a: CollapsedV, o: CollapsedV)
    requires
        well_formed(a),
    ensures
        well_formed(merged(a, o)),
{
    lemma_put_all_distinct(a.exposures, o.exposures);
    lemma_put_all_distinct(a.parameters, o.parameters);
    lemma_put_all_distinct(a.constants, o.constants);
    lemma_put_all_distinct(a.attributes, o.attributes);
}

/// Adding the members of a group keeps a flat form well formed.
pub proof fn lemma_members_well_formed(
    inst: InstanceV,
    frames: Frames,
    g: int,
    m: nat,
    acc: CollapsedV,
)
    requires
        well_formed(acc),
        with_members(inst, frames, g, m, acc) is Ok,
    ensures
        well_formed(with_members(inst, frames, g, m, acc)->Ok_0),
    decreases m,
{
    if m == 0 || !(0 <= g < inst.children.len()) || m > inst.children[g].1.len() {
    } else {
        lemma_members_well_formed(inst, frames, g, (m - 1) as nat, acc);
        let a = with_members(inst, frames, g, (m - 1) as nat, acc)->Ok_0;
        let o = collapsed_tree(inst.children[g].1[m - 1], frames, None, true)->Ok_0;
        lemma_merged_well_formed(a, o);
    }
}

/// Adding the groups keeps a flat form well formed.
pub proof fn lemma_groups_well_formed(inst: InstanceV, frames: Frames, n: nat, acc: CollapsedV)
    requires
        well_formed(acc),
        with_groups(inst, frames, n, acc) is Ok,
    ensures
        well_formed(with_groups(inst, frames, n, acc)->Ok_0),
    decreases n,
{
    if n == 0 || n > inst.children.len() {
    } else {
        lemma_groups_well_formed(inst, frames, (n - 1) as nat, acc);
        let a = with_groups(inst, frames, (n - 1) as nat, acc)->Ok_0;
        lemma_members_well_formed(
            inst,
            frames.push((inst.children[n - 1].0, Seq::empty())),
            n - 1,
            inst.children[n - 1].1.len(),
            a,
        );
    }
}

/// Adding the single children keeps a flat form well formed.
pub proof fn lemma_singles_well_formed(inst: InstanceV, frames: Frames, n: nat, acc: CollapsedV)
    requires
        well_formed(acc),
        with_singles(inst, frames, n, acc) is Ok,
    ensures
        well_formed(with_singles(inst, frames, n, acc)->Ok_0),
    decreases n,
{
    if n == 0 || n > inst.child.len() {
    } else {
        lemma_singles_well_formed(inst, frames, (n - 1) as nat, acc);
        let a = with_singles(inst, frames, (n - 1) as nat, acc)->Ok_0;
        let o = collapsed_tree(inst.child[n - 1].1, frames, Some(inst.child[n - 1].0), true)->Ok_0;
        lemma_merged_well_formed(a, o);
    }
}

/// A collapsed tree is well formed.
pub proof fn lemma_tree_well_formed(
    inst: InstanceV,
    frames: Frames,
    slot: Option<Seq<char>>,
    add_name: bool,
)
    requires
        collapsed_tree(inst, frames, slot, add_name) is Ok,
    ensures
        well_formed(collapsed_tree(inst, frames, slot, add_name)->Ok_0),
{
    let inner = entered(inst, frames, slot, add_name);
    lemma_own_well_formed(inst, inner);
    lemma_groups_well_formed(inst, inner, inst.children.len(), own(inst, inner));
    let a = with_groups(inst, inner, inst.children.len(), own(inst, inner))->Ok_0;
    lemma_singles_well_formed(inst, inner, inst.child.len(), a);
}

/// Of distinct parameters, those that stay are distinct.
pub proof fn lemma_kept_distinct(
    params: Seq<(Seq<char>, Option<QuantityV>)>,
    tokens: Seq<Seq<char>>,
)
    requires
        distinct(params),
    ensures
        distinct(kept_parameters(params, tokens)),
    decreases params.len(),
{
    if params.len() > 0 {
        let head = params.drop_last();
        assert forall|i: int, j: int| 0 <= i < j < head.len() implies head[i].0 != head[j].0 by {
            assert(params[i].0 != params[j].0);
        }
        lemma_kept_distinct(head, tokens);
        let kept = kept_parameters(head, tokens);
        if retained(tokens, params.last().0, params.last().1) {
            let all = kept.push(params.last());
            assert forall|i: int, j: int| 0 <= i < j < all.len() implies all[i].0 != all[j].0 by {
                if j == kept.len() {
                    lemma_kept_parameters(head, tokens, kept[i]);
                    let k = choose|k: int| 0 <= k < head.len() && head[k] == kept[i];
                    assert(params[k].0 != params[params.len() - 1].0);
                }
            }
        }
    }
}

/// A well-formed flat form is well formed when it has been simplified.
pub proof fn lemma_simplified_well_formed(x: CollapsedV, tokens: Seq<Seq<char>>)
    requires
        well_formed(x),
    ensures
        well_formed(simplified_form(x, tokens)),
{
    lemma_kept_distinct(x.parameters, tokens);
}

} // verus!

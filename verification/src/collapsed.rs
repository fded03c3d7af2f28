use vstd::prelude::*;
use vstd::std_specs::vec::axiom_vec_index_decreases;
use crate::context::{dup_names, qualified, renamed_kind, Context, Frames};
use crate::dict::{keys, lookup, put_all, Dict};
use crate::error::Error;
use crate::expr::{Expr, ExprV, Number, Quantity, QuantityV, ONE_BITS, ZERO_BITS};
use crate::instance::{kinetic_prefixed, ComponentType, ComponentTypeV, Instance, InstanceV, Kinetic, KineticV};
use crate::path::selected;
use crate::text::views;
use crate::transitions::{lemma_of_err, transitions, transitions_of, Transition};
use crate::variable::{dup_name, SelectBy, VarKind, VarKindV, Variable, VariableV};

verus! {

/// A tree of components made flat: every symbol carries the path to the
/// component that declares it in its name, and nothing is nested.
#[derive(Clone, Debug, PartialEq)]
pub struct Collapsed {
    pub name: Option<String>,
    pub exposures: Dict<String>,
    pub variables: Vec<Variable>,
    pub constants: Dict<Quantity>,
    pub parameters: Dict<Option<Quantity>>,
    pub attributes: Dict<Option<String>>,
    pub events: Vec<(String, Expr)>,
    pub kinetic: Vec<Kinetic>,
    pub transitions: Vec<(String, String, String, String)>,
}

pub struct CollapsedV {
    pub name: Option<Seq<char>>,
    pub exposures: Seq<(Seq<char>, Seq<char>)>,
    pub variables: Seq<VariableV>,
    pub constants: Seq<(Seq<char>, QuantityV)>,
    pub parameters: Seq<(Seq<char>, Option<QuantityV>)>,
    pub attributes: Seq<(Seq<char>, Option<Seq<char>>)>,
    pub events: Seq<(Seq<char>, ExprV)>,
    pub kinetic: Seq<KineticV>,
    pub transitions: Seq<(Seq<char>, Seq<char>, Seq<char>, Seq<char>)>,
}

impl DeepView for Collapsed {
    type V = CollapsedV;

    open spec fn deep_view(&self) -> CollapsedV {
        CollapsedV {
            name: self.name.deep_view(),
            exposures: self.exposures.deep_view(),
            variables: self.variables.deep_view(),
            constants: self.constants.deep_view(),
            parameters: self.parameters.deep_view(),
            attributes: self.attributes.deep_view(),
            events: self.events.deep_view(),
            kinetic: self.kinetic.deep_view(),
            transitions: self.transitions.deep_view(),
        }
    }
}

impl View for Collapsed {
    type V = CollapsedV;

    open spec fn view(&self) -> CollapsedV {
        self.deep_view()
    }
}

impl Collapsed {
    /// Whether no name stands twice among the exposures, among the
    /// parameters, among the constants or among the attributes. What comes
    /// out of a collapse is so, and simplifying keeps it so.
    pub open spec fn wf(&self) -> bool {
        crate::keys::well_formed(self@)
    }
}

/// The names of the variables, in order.
pub open spec fn variable_names(vars: Seq<VariableV>) -> Seq<Seq<char>> {
    Seq::new(vars.len(), |i: int| vars[i].name)
}

/// The names that a component type declares: its exposures, parameters,
/// constants and variables.
pub open spec fn local_symbols(ct: ComponentTypeV) -> Seq<Seq<char>> {
    keys(ct.exposures) + ct.parameters + keys(ct.constants) + variable_names(ct.variables)
}

/// The label of the scope that a component opens. The root may stay without
/// one; any other component goes by its id, else by the name of the slot it
/// sits in, else by `Unknown`.
pub open spec fn scope_label(inst: InstanceV, slot: Option<Seq<char>>, add_name: bool) -> Seq<
    char,
> {
    if !add_name {
        Seq::empty()
    } else {
        match inst.id {
            Some(id) => id,
            None => match slot {
                Some(n) => n,
                None => "Unknown"@,
            },
        }
    }
}

/// The entries of `s`, each key under its flat name.
pub open spec fn flat_entries<T>(s: Seq<(Seq<char>, T)>, frames: Frames) -> Seq<(Seq<char>, T)> {
    Seq::new(s.len(), |i: int| (qualified(frames, s[i].0), s[i].1))
}

/// Each of `names` under its flat name, with what `values` has for it.
pub open spec fn flat_lookups<T>(
    names: Seq<Seq<char>>,
    values: Seq<(Seq<char>, T)>,
    frames: Frames,
) -> Seq<(Seq<char>, Option<T>)> {
    Seq::new(names.len(), |i: int| (qualified(frames, names[i]), lookup(values, names[i])))
}

/// The exposures of a type under their flat names.
pub open spec fn own_exposures(ct: ComponentTypeV, frames: Frames) -> Seq<
    (Seq<char>, Seq<char>),
> {
    put_all(Seq::empty(), flat_entries(ct.exposures, frames))
}

/// The constants of a type under their flat names.
pub open spec fn own_constants(ct: ComponentTypeV, frames: Frames) -> Seq<(Seq<char>, QuantityV)> {
    put_all(Seq::empty(), flat_entries(ct.constants, frames))
}

/// The parameters of a component under their flat names, each with the value
/// that the component gives it, if it gives one.
pub open spec fn own_parameters(inst: InstanceV, frames: Frames) -> Seq<
    (Seq<char>, Option<QuantityV>),
> {
    put_all(Seq::empty(), flat_lookups(inst.component_type.parameters, inst.parameters, frames))
}

/// The attributes of a component under their flat names, each with the text
/// that the component gives it, if it gives one.
pub open spec fn own_attributes(inst: InstanceV, frames: Frames) -> Seq<
    (Seq<char>, Option<Seq<char>>),
> {
    put_all(Seq::empty(), flat_lookups(inst.component_type.attributes, inst.attributes, frames))
}

/// The events of a type, the variable of each under its flat name.
pub open spec fn own_events(ct: ComponentTypeV, frames: Frames) -> Seq<(Seq<char>, ExprV)> {
    Seq::new(ct.events.len(), |i: int| (qualified(frames, ct.events[i].0), ct.events[i].1))
}

/// The kinetic schemes of a type as they read in the flat namespace.
pub open spec fn own_kinetic(ct: ComponentTypeV, frames: Frames) -> Seq<KineticV> {
    Seq::new(ct.kinetic.len(), |i: int| kinetic_prefixed(ct.kinetic[i], frames))
}

/// A variable as it reads in the flat namespace.
pub open spec fn flat_variable(v: VariableV, frames: Frames) -> VariableV {
    VariableV {
        name: qualified(frames, v.name),
        exposure: match v.exposure {
            Some(s) => Some(qualified(frames, s)),
            None => None,
        },
        dimension: v.dimension,
        kind: renamed_kind(frames, v.kind),
    }
}

/// The variables of a type as they read in the flat namespace.
pub open spec fn own_variables(ct: ComponentTypeV, frames: Frames) -> Seq<VariableV> {
    Seq::new(ct.variables.len(), |i: int| flat_variable(ct.variables[i], frames))
}

/// What a component contributes by itself, its own scope being the innermost
/// of `frames`.
pub open spec fn own(inst: InstanceV, frames: Frames) -> CollapsedV {
    let ct = inst.component_type;
    CollapsedV {
        name: inst.id,
        exposures: own_exposures(ct, frames),
        variables: own_variables(ct, frames),
        constants: own_constants(ct, frames),
        parameters: own_parameters(inst, frames),
        attributes: own_attributes(inst, frames),
        events: own_events(ct, frames),
        kinetic: own_kinetic(ct, frames),
        transitions: Seq::empty(),
    }
}

/// `acc` with all of `other` added: entries of `other` replace entries of the
/// same name, and the lists of `other` follow those of `acc`.
pub open spec fn merged(acc: CollapsedV, other: CollapsedV) -> CollapsedV {
    CollapsedV {
        name: acc.name,
        exposures: put_all(acc.exposures, other.exposures),
        variables: acc.variables + other.variables,
        constants: put_all(acc.constants, other.constants),
        parameters: put_all(acc.parameters, other.parameters),
        attributes: put_all(acc.attributes, other.attributes),
        events: acc.events + other.events,
        kinetic: acc.kinetic + other.kinetic,
        transitions: acc.transitions,
    }
}

/// References to the names, in order.
pub open spec fn references(ms: Seq<Seq<char>>) -> Seq<ExprV> {
    Seq::new(ms.len(), |i: int| ExprV::Var(ms[i]))
}

/// The one value that stands for the values named `ms`.
pub open spec fn gathered(by: SelectBy, ms: Seq<Seq<char>>) -> Result<ExprV, Error> {
    match by {
        SelectBy::Get => if ms.len() == 1 {
            Ok(ExprV::Var(ms[0]))
        } else if ms.len() == 0 {
            Err(Error::MissingRequired)
        } else {
            Err(Error::MalformedDynamics)
        },
        SelectBy::Sum => if ms.len() == 0 {
            Ok(ExprV::Num(Number { bits: ZERO_BITS }))
        } else {
            Ok(ExprV::Add(references(ms)))
        },
        SelectBy::Product => if ms.len() == 0 {
            Ok(ExprV::Num(Number { bits: ONE_BITS }))
        } else {
            Ok(ExprV::Mul(references(ms)))
        },
    }
}

/// A variable with its selection, if it is one, turned into an expression
/// over the exposures `names` that lie on its pattern.
pub open spec fn resolved_variable(v: VariableV, names: Seq<Seq<char>>) -> Result<
    VariableV,
    Error,
> {
    match v.kind {
        VarKindV::Select(by, ps) => match gathered(by, selected(ps, names)) {
            Ok(e) => Ok(
                VariableV {
                    name: v.name,
                    exposure: v.exposure,
                    dimension: v.dimension,
                    kind: VarKindV::Derived(Seq::empty(), Some(e)),
                },
            ),
            Err(e) => Err(e),
        },
        _ => Ok(v),
    }
}

/// The variables with every selection resolved, or the error of the first
/// selection that cannot be.
pub open spec fn resolved_variables(vars: Seq<VariableV>, names: Seq<Seq<char>>) -> Result<
    Seq<VariableV>,
    Error,
>
    decreases vars.len(),
{
    if vars.len() == 0 {
        Ok(Seq::empty())
    } else {
        match resolved_variables(vars.drop_last(), names) {
            Err(e) => Err(e),
            Ok(head) => match resolved_variable(vars.last(), names) {
                Err(e) => Err(e),
                Ok(v) => Ok(head.push(v)),
            },
        }
    }
}

/// `c` with every selection among its variables resolved against its
/// exposures.
pub open spec fn resolved(c: CollapsedV) -> Result<CollapsedV, Error> {
    match resolved_variables(c.variables, keys(c.exposures)) {
        Err(e) => Err(e),
        Ok(vs) => Ok(
            CollapsedV {
                name: c.name,
                exposures: c.exposures,
                variables: vs,
                constants: c.constants,
                parameters: c.parameters,
                attributes: c.attributes,
                events: c.events,
                kinetic: c.kinetic,
                transitions: c.transitions,
            },
        ),
    }
}

/// The frames as they are inside a component.
pub open spec fn entered(
    inst: InstanceV,
    frames: Frames,
    slot: Option<Seq<char>>,
    add_name: bool,
) -> Frames {
    frames.push((scope_label(inst, slot, add_name), local_symbols(inst.component_type)))
}

/// `acc` after the first `m` components of the group `g` of `inst` have been
/// collapsed and added, in order.
pub open spec fn with_members(
    inst: InstanceV,
    frames: Frames,
    g: int,
    m: nat,
    acc: CollapsedV,
) -> Result<CollapsedV, Error>
    decreases inst, 1nat, m,
{
    if m == 0 || !(0 <= g < inst.children.len()) || m > inst.children[g].1.len() {
        Ok(acc)
    } else {
        match with_members(inst, frames, g, (m - 1) as nat, acc) {
            Err(e) => Err(e),
            Ok(a) => match collapsed_tree(inst.children[g].1[m - 1], frames, None, true) {
                Err(e) => Err(e),
                Ok(o) => Ok(merged(a, o)),
            },
        }
    }
}

/// `acc` after the first `n` groups of children of `inst` have been added.
/// Each group opens a scope of its own, labelled with the name of its slot.
pub open spec fn with_groups(inst: InstanceV, frames: Frames, n: nat, acc: CollapsedV) -> Result<
    CollapsedV,
    Error,
>
    decreases inst, 2nat, n,
{
    if n == 0 || n > inst.children.len() {
        Ok(acc)
    } else {
        match with_groups(inst, frames, (n - 1) as nat, acc) {
            Err(e) => Err(e),
            Ok(a) => with_members(
                inst,
                frames.push((inst.children[n - 1].0, Seq::empty())),
                n - 1,
                inst.children[n - 1].1.len(),
                a,
            ),
        }
    }
}

/// `acc` after the components in the first `n` single slots of `inst` have
/// been collapsed and added, each going by the name of its slot where it has
/// no id.
pub open spec fn with_singles(inst: InstanceV, frames: Frames, n: nat, acc: CollapsedV) -> Result<
    CollapsedV,
    Error,
>
    decreases inst, 2nat, n,
{
    if n == 0 || n > inst.child.len() {
        Ok(acc)
    } else {
        match with_singles(inst, frames, (n - 1) as nat, acc) {
            Err(e) => Err(e),
            Ok(a) => match collapsed_tree(
                inst.child[n - 1].1,
                frames,
                Some(inst.child[n - 1].0),
                true,
            ) {
                Err(e) => Err(e),
                Ok(o) => Ok(merged(a, o)),
            },
        }
    }
}

/// The flat form of the tree below `inst`, seen from inside `frames`: what
/// the component contributes itself, then its groups of children, then its
/// single children, and at last every selection resolved against all the
/// exposures that have come together.
pub open spec fn collapsed_tree(
    inst: InstanceV,
    frames: Frames,
    slot: Option<Seq<char>>,
    add_name: bool,
) -> Result<CollapsedV, Error>
    decreases inst, 3nat, 0nat,
{
    let inner = entered(inst, frames, slot, add_name);
    match with_groups(inst, inner, inst.children.len(), own(inst, inner)) {
        Err(e) => Err(e),
        Ok(a) => match with_singles(inst, inner, inst.child.len(), a) {
            Err(e) => Err(e),
            Ok(b) => resolved(b),
        },
    }
}

/// The names that a component type declares.
pub fn symbols_of(ct: &ComponentType) -> (r: Vec<String>)
    ensures
        views(r@) == local_symbols(ct@),
{
    let mut out = ct.exposures.keys();
    let mut ps = dup_names(&ct.parameters);
    let mut cs = ct.constants.keys();
    let mut vs: Vec<String> = Vec::new();
    let mut i: usize = 0;
    while i < ct.variables.len()
        invariant
            i <= ct.variables@.len(),
            vs@.len() == i,
            forall|j: int| 0 <= j < i ==> vs@[j]@ == ct.variables@[j].name@,
        decreases ct.variables@.len() - i,
    {
        vs.push(ct.variables[i].name.clone());
        i += 1;
    }
    assert(views(vs@) =~= variable_names(ct@.variables));
    let ghost a = views(out@);
    let ghost b = views(ps@);
    let ghost c = views(cs@);
    let ghost d = views(vs@);
    out.append(&mut ps);
    out.append(&mut cs);
    out.append(&mut vs);
    assert(views(out@) =~= a + b + c + d);
    out
}

/// A variable as it reads inside `ctx`.
pub fn flatten_variable(v: &Variable, ctx: &Context) -> (r: Variable)
    ensures
        r@ == flat_variable(v@, ctx@),
{
    Variable {
        name: ctx.add_prefix(v.name.as_str()),
        exposure: match &v.exposure {
            Some(s) => Some(ctx.add_prefix(s.as_str())),
            None => None,
        },
        dimension: v.dimension.clone(),
        kind: ctx.rename_kind(&v.kind),
    }
}

/// What a component contributes by itself, seen from inside `ctx`.
pub fn own_part(inst: &Instance, ctx: &Context) -> (r: Collapsed)
    ensures
        r@ == own(inst@, ctx@),
{
    let ct = &inst.component_type;
    proof {
        inst.lemma_model();
    }
    let mut exposures: Dict<String> = Dict::new();
    let mut i: usize = 0;
    let ghost flat = flat_entries(ct@.exposures, ctx@);
    assert(flat.subrange(0, 0) =~= Seq::<(Seq<char>, Seq<char>)>::empty());
    while i < ct.exposures.len()
        invariant
            i <= ct.exposures.entries@.len(),
            flat == flat_entries(ct@.exposures, ctx@),
            exposures.deep_view() == put_all(Seq::empty(), flat.subrange(0, i as int)),
        decreases ct.exposures.entries@.len() - i,
    {
        let k = ctx.add_prefix(ct.exposures.key_at(i).as_str());
        let v = ct.exposures.value_at(i).clone();
        assert(flat.subrange(0, i + 1).drop_last() =~= flat.subrange(0, i as int));
        exposures.insert(k, v);
        i += 1;
    }
    assert(flat.subrange(0, flat.len() as int) =~= flat);

    let mut constants: Dict<Quantity> = Dict::new();
    let mut i: usize = 0;
    let ghost flat = flat_entries(ct@.constants, ctx@);
    assert(flat.subrange(0, 0) =~= Seq::<(Seq<char>, QuantityV)>::empty());
    while i < ct.constants.len()
        invariant
            i <= ct.constants.entries@.len(),
            flat == flat_entries(ct@.constants, ctx@),
            constants.deep_view() == put_all(Seq::empty(), flat.subrange(0, i as int)),
        decreases ct.constants.entries@.len() - i,
    {
        let k = ctx.add_prefix(ct.constants.key_at(i).as_str());
        let v = ct.constants.value_at(i).dup();
        assert(flat.subrange(0, i + 1).drop_last() =~= flat.subrange(0, i as int));
        constants.insert(k, v);
        i += 1;
    }
    assert(flat.subrange(0, flat.len() as int) =~= flat);

    let mut parameters: Dict<Option<Quantity>> = Dict::new();
    let mut i: usize = 0;
    let ghost flat = flat_lookups(ct@.parameters, inst@.parameters, ctx@);
    assert(flat.subrange(0, 0) =~= Seq::<(Seq<char>, Option<QuantityV>)>::empty());
    while i < ct.parameters.len()
        invariant
            i <= ct.parameters@.len(),
            flat == flat_lookups(ct@.parameters, inst@.parameters, ctx@),
            inst@.parameters == inst.parameters.deep_view(),
            parameters.deep_view() == put_all(Seq::empty(), flat.subrange(0, i as int)),
        decreases ct.parameters@.len() - i,
    {
        let k = ctx.add_prefix(ct.parameters[i].as_str());
        let v = match inst.parameters.get(ct.parameters[i].as_str()) {
            Some(q) => Some(q.dup()),
            None => None,
        };
        assert(flat.subrange(0, i + 1).drop_last() =~= flat.subrange(0, i as int));
        parameters.insert(k, v);
        i += 1;
    }
    assert(flat.subrange(0, flat.len() as int) =~= flat);

    let mut attributes: Dict<Option<String>> = Dict::new();
    let mut i: usize = 0;
    let ghost flat = flat_lookups(ct@.attributes, inst@.attributes, ctx@);
    assert(flat.subrange(0, 0) =~= Seq::<(Seq<char>, Option<Seq<char>>)>::empty());
    while i < ct.attributes.len()
        invariant
            i <= ct.attributes@.len(),
            flat == flat_lookups(ct@.attributes, inst@.attributes, ctx@),
            inst@.attributes == inst.attributes.deep_view(),
            attributes.deep_view() == put_all(Seq::empty(), flat.subrange(0, i as int)),
        decreases ct.attributes@.len() - i,
    {
        let k = ctx.add_prefix(ct.attributes[i].as_str());
        let v = match inst.attributes.get(ct.attributes[i].as_str()) {
            Some(q) => Some(q.clone()),
            None => None,
        };
        assert(flat.subrange(0, i + 1).drop_last() =~= flat.subrange(0, i as int));
        attributes.insert(k, v);
        i += 1;
    }
    assert(flat.subrange(0, flat.len() as int) =~= flat);

    let mut events: Vec<(String, Expr)> = Vec::new();
    let mut i: usize = 0;
    while i < ct.events.len()
        invariant
            i <= ct.events@.len(),
            events@.len() == i,
            forall|j: int|
                0 <= j < i ==> (#[trigger] events@[j]).0@ == qualified(ctx@, ct.events@[j].0@)
                    && events@[j].1@ == ct.events@[j].1@,
        decreases ct.events@.len() - i,
    {
        events.push((ctx.add_prefix(ct.events[i].0.as_str()), ct.events[i].1.dup()));
        i += 1;
    }
    assert(events.deep_view() =~= own_events(ct@, ctx@));

    let mut kinetic: Vec<Kinetic> = Vec::new();
    let mut i: usize = 0;
    while i < ct.kinetic.len()
        invariant
            i <= ct.kinetic@.len(),
            kinetic@.len() == i,
            forall|j: int|
                0 <= j < i ==> (#[trigger] kinetic@[j])@ == kinetic_prefixed(
                    ct.kinetic@[j]@,
                    ctx@,
                ),
        decreases ct.kinetic@.len() - i,
    {
        kinetic.push(ct.kinetic[i].add_prefix(ctx));
        i += 1;
    }
    assert(kinetic.deep_view() =~= own_kinetic(ct@, ctx@));

    let mut variables: Vec<Variable> = Vec::new();
    let mut i: usize = 0;
    while i < ct.variables.len()
        invariant
            i <= ct.variables@.len(),
            variables@.len() == i,
            forall|j: int|
                0 <= j < i ==> (#[trigger] variables@[j])@ == flat_variable(
                    ct.variables@[j]@,
                    ctx@,
                ),
        decreases ct.variables@.len() - i,
    {
        variables.push(flatten_variable(&ct.variables[i], ctx));
        i += 1;
    }
    assert(variables.deep_view() =~= own_variables(ct@, ctx@));

    let r = Collapsed {
        name: dup_name(&inst.id),
        exposures,
        variables,
        constants,
        parameters,
        attributes,
        events,
        kinetic,
        transitions: Vec::new(),
    };
    assert(r.transitions.deep_view() =~= Seq::<(Seq<char>, Seq<char>, Seq<char>, Seq<char>)>::empty());
    r
}

/// The flat form of the tree below `root`: the tree collapsed from the root
/// down, and the transitions of its kinetic schemes found in the tree. With
/// `use_name` the root opens a scope under its own label as every other
/// component does; without, the names of the root stay bare.
pub open spec fn collapsed(root: InstanceV, use_name: bool) -> Result<CollapsedV, Error> {
    match collapsed_tree(root, Seq::empty(), None, use_name) {
        Err(e) => Err(e),
        Ok(c) => match transitions_of(c.kinetic, root) {
            Err(e) => Err(e),
            Ok(ts) => Ok(
                CollapsedV {
                    name: c.name,
                    exposures: c.exposures,
                    variables: c.variables,
                    constants: c.constants,
                    parameters: c.parameters,
                    attributes: c.attributes,
                    events: c.events,
                    kinetic: c.kinetic,
                    transitions: c.transitions + ts,
                },
            ),
        },
    }
}

/// No variable is a selection.
pub open spec fn free_of_selections(vars: Seq<VariableV>) -> bool {
    forall|i: int| 0 <= i < vars.len() ==> !((#[trigger] vars[i]).kind is Select)
}

/// A tree that collapses leaves no selection among its variables.
pub proof fn lemma_collapsed_tree_resolved(
    inst: InstanceV,
    frames: Frames,
    slot: Option<Seq<char>>,
    add_name: bool,
)
    requires
        collapsed_tree(inst, frames, slot, add_name) is Ok,
    ensures
        free_of_selections(collapsed_tree(inst, frames, slot, add_name)->Ok_0.variables),
{
    let inner = entered(inst, frames, slot, add_name);
    let a = with_groups(inst, inner, inst.children.len(), own(inst, inner))->Ok_0;
    let b = with_singles(inst, inner, inst.child.len(), a)->Ok_0;
    lemma_resolved(b.variables, keys(b.exposures));
}

/// An error among the first `m` members of a group is the error of the whole
/// group.
pub proof fn lemma_members_err(
    inst: InstanceV,
    frames: Frames,
    g: int,
    m: nat,
    acc: CollapsedV,
    upto: nat,
)
    requires
        0 <= g < inst.children.len(),
        m <= upto <= inst.children[g].1.len(),
        with_members(inst, frames, g, m, acc) is Err,
    ensures
        with_members(inst, frames, g, upto, acc) == with_members(inst, frames, g, m, acc),
    decreases upto - m,
{
    if m < upto {
        lemma_members_err(inst, frames, g, m, acc, (upto - 1) as nat);
    }
}

/// An error among the first `n` groups is the error of all the groups.
pub proof fn lemma_groups_err(inst: InstanceV, frames: Frames, n: nat, acc: CollapsedV, upto: nat)
    requires
        n <= upto <= inst.children.len(),
        with_groups(inst, frames, n, acc) is Err,
    ensures
        with_groups(inst, frames, upto, acc) == with_groups(inst, frames, n, acc),
    decreases upto - n,
{
    if n < upto {
        lemma_groups_err(inst, frames, n, acc, (upto - 1) as nat);
    }
}

/// An error among the first `n` single children is the error of all of them.
pub proof fn lemma_singles_err(inst: InstanceV, frames: Frames, n: nat, acc: CollapsedV, upto: nat)
    requires
        n <= upto <= inst.child.len(),
        with_singles(inst, frames, n, acc) is Err,
    ensures
        with_singles(inst, frames, upto, acc) == with_singles(inst, frames, n, acc),
    decreases upto - n,
{
    if n < upto {
        lemma_singles_err(inst, frames, n, acc, (upto - 1) as nat);
    }
}

/// An error among the first `n` variables is the error of all of them.
pub proof fn lemma_resolved_err(vars: Seq<VariableV>, names: Seq<Seq<char>>, n: int)
    requires
        0 <= n <= vars.len(),
        resolved_variables(vars.subrange(0, n), names) is Err,
    ensures
        resolved_variables(vars, names) == resolved_variables(vars.subrange(0, n), names),
    decreases vars.len() - n,
{
    if n < vars.len() {
        assert(vars.subrange(0, n + 1).drop_last() =~= vars.subrange(0, n));
        lemma_resolved_err(vars, names, n + 1);
    } else {
        assert(vars.subrange(0, n) =~= vars);
    }
}

/// Resolving keeps every variable in its place and under its name, and
/// leaves no selection behind.
pub proof fn lemma_resolved(vars: Seq<VariableV>, names: Seq<Seq<char>>)
    requires
        resolved_variables(vars, names) is Ok,
    ensures
        resolved_variables(vars, names)->Ok_0.len() == vars.len(),
        forall|i: int|
            0 <= i < vars.len() ==> resolved_variable(vars[i], names) == Ok::<VariableV, Error>(
                #[trigger] resolved_variables(vars, names)->Ok_0[i],
            ),
        forall|i: int|
            0 <= i < vars.len() ==> !((#[trigger] resolved_variables(
                vars,
                names,
            )->Ok_0[i]).kind is Select),
    decreases vars.len(),
{
    if vars.len() > 0 {
        lemma_resolved(vars.drop_last(), names);
        let head = resolved_variables(vars.drop_last(), names)->Ok_0;
        let out = resolved_variables(vars, names)->Ok_0;
        assert forall|i: int| 0 <= i < vars.len() implies resolved_variable(vars[i], names)
            == Ok::<VariableV, Error>(#[trigger] out[i]) && !(out[i].kind is Select) by {
            if i < vars.len() - 1 {
                assert(out[i] == head[i]);
                assert(vars.drop_last()[i] == vars[i]);
            }
        }
    }
}

/// The one value that stands for the values named `ms`.
pub fn gather(by: SelectBy, ms: &Vec<String>) -> (r: Result<Expr, Error>)
    ensures
        match r {
            Ok(e) => gathered(by, views(ms@)) == Ok::<ExprV, Error>(e@),
            Err(e) => gathered(by, views(ms@)) == Err::<ExprV, Error>(e),
        },
{
    let mut refs: Vec<Expr> = Vec::new();
    let mut i: usize = 0;
    while i < ms.len()
        invariant
            i <= ms.len(),
            refs@.len() == i,
            forall|j: int| 0 <= j < i ==> (#[trigger] refs@[j])@ == ExprV::Var(ms@[j]@),
        decreases ms.len() - i,
    {
        refs.push(Expr::Var(ms[i].clone()));
        i += 1;
    }
    assert(crate::expr::models(refs@) =~= references(views(ms@)));
    match by {
        SelectBy::Get => {
            if refs.len() == 1 {
                let e = refs.pop().unwrap();
                Ok(e)
            } else if refs.len() == 0 {
                Err(Error::MissingRequired)
            } else {
                Err(Error::MalformedDynamics)
            }
        },
        SelectBy::Sum => {
            if refs.len() == 0 {
                Ok(Expr::Num(Number::zero()))
            } else {
                let e = Expr::Add(refs);
                proof {
                    e.lemma_model();
                }
                Ok(e)
            }
        },
        SelectBy::Product => {
            if refs.len() == 0 {
                Ok(Expr::Num(Number::one()))
            } else {
                let e = Expr::Mul(refs);
                proof {
                    e.lemma_model();
                }
                Ok(e)
            }
        },
    }
}

/// The variable with its selection, if it is one, turned into an expression
/// over those of `names` that lie on its pattern.
pub fn resolve_variable(v: &Variable, names: &Vec<String>) -> (r: Result<Variable, Error>)
    ensures
        match r {
            Ok(w) => resolved_variable(v@, views(names@)) == Ok::<VariableV, Error>(w@),
            Err(e) => resolved_variable(v@, views(names@)) == Err::<VariableV, Error>(e),
        },
{
    match &v.kind {
        VarKind::Select(by, ps) => {
            let ms = ps.on_path(names);
            match gather(*by, &ms) {
                Ok(e) => {
                    let cases: Vec<(crate::boolean::Boolean, Expr)> = Vec::new();
                    assert(cases.deep_view() =~= Seq::<(crate::boolean::BooleanV, ExprV)>::empty());
                    Ok(
                        Variable {
                            name: v.name.clone(),
                            exposure: dup_name(&v.exposure),
                            dimension: v.dimension.clone(),
                            kind: VarKind::Derived(cases, Some(e)),
                        },
                    )
                },
                Err(e) => Err(e),
            }
        },
        _ => Ok(v.dup()),
    }
}

/// The variables with every selection resolved, or the error of the first
/// selection that cannot be.
pub fn resolve_variables(vars: &Vec<Variable>, names: &Vec<String>) -> (r: Result<
    Vec<Variable>,
    Error,
>)
    ensures
        match r {
            Ok(ws) => resolved_variables(vars.deep_view(), views(names@)) == Ok::<
                Seq<VariableV>,
                Error,
            >(ws.deep_view()),
            Err(e) => resolved_variables(vars.deep_view(), views(names@)) == Err::<
                Seq<VariableV>,
                Error,
            >(e),
        },
{
    let mut out: Vec<Variable> = Vec::new();
    let mut i: usize = 0;
    let ghost all = vars.deep_view();
    assert(all.subrange(0, 0) =~= Seq::<VariableV>::empty());
    assert(out.deep_view() =~= Seq::<VariableV>::empty());
    while i < vars.len()
        invariant
            i <= vars.len(),
            all == vars.deep_view(),
            resolved_variables(all.subrange(0, i as int), views(names@)) == Ok::<
                Seq<VariableV>,
                Error,
            >(out.deep_view()),
        decreases vars.len() - i,
    {
        let ghost before = out.deep_view();
        assert(all.subrange(0, i + 1).drop_last() =~= all.subrange(0, i as int));
        assert(all.subrange(0, i + 1).last() == vars@[i as int]@);
        match resolve_variable(&vars[i], names) {
            Ok(w) => {
                out.push(w);
                assert(out.deep_view() =~= before.push(w@));
            },
            Err(e) => {
                proof {
                    lemma_resolved_err(all, views(names@), i + 1);
                }
                return Err(e);
            },
        }
        i += 1;
    }
    assert(all.subrange(0, vars.len() as int) =~= all);
    Ok(out)
}

impl Collapsed {
    /// The empty flat form that goes by the name `nm`.
    pub fn new(nm: &Option<String>) -> (r: Self)
        ensures
            r@ == (CollapsedV {
                name: nm.deep_view(),
                exposures: Seq::empty(),
                variables: Seq::empty(),
                constants: Seq::empty(),
                parameters: Seq::empty(),
                attributes: Seq::empty(),
                events: Seq::empty(),
                kinetic: Seq::empty(),
                transitions: Seq::empty(),
            }),
    {
        let r = Collapsed {
            name: dup_name(nm),
            exposures: Dict::new(),
            variables: Vec::new(),
            constants: Dict::new(),
            parameters: Dict::new(),
            attributes: Dict::new(),
            events: Vec::new(),
            kinetic: Vec::new(),
            transitions: Vec::new(),
        };
        assert(r.variables.deep_view() =~= Seq::<VariableV>::empty());
        assert(r.events.deep_view() =~= Seq::<(Seq<char>, ExprV)>::empty());
        assert(r.kinetic.deep_view() =~= Seq::<KineticV>::empty());
        assert(r.transitions.deep_view() =~= Seq::<
            (Seq<char>, Seq<char>, Seq<char>, Seq<char>),
        >::empty());
        r
    }

    /// The flat form of the tree below `inst`, the names of the root bare.
    pub fn from_instance(inst: &Instance) -> (r: Result<Self, Error>)
        ensures
            match r {
                Ok(c) => collapsed(inst@, false) == Ok::<CollapsedV, Error>(c@)
                    && free_of_selections(c@.variables) && c.wf(),
                Err(e) => collapsed(inst@, false) == Err::<CollapsedV, Error>(e),
            },
    {
        Self::from_instance_with_name(inst, false)
    }

    /// The flat form of the tree below `inst`. No variable of it is a
    /// selection any more.
    pub fn from_instance_with_name(inst: &Instance, use_name: bool) -> (r: Result<Self, Error>)
        ensures
            match r {
                Ok(c) => collapsed(inst@, use_name) == Ok::<CollapsedV, Error>(c@)
                    && free_of_selections(c@.variables) && c.wf(),
                Err(e) => collapsed(inst@, use_name) == Err::<CollapsedV, Error>(e),
            },
    {
        let mut coll = match Self::from_instance_(inst, &Context::new(), None, use_name) {
            Ok(c) => c,
            Err(e) => {
                return Err(e);
            },
        };
        proof {
            lemma_collapsed_tree_resolved(inst@, Seq::empty(), None, use_name);
            crate::keys::lemma_tree_well_formed(inst@, Seq::empty(), None, use_name);
        }
        let ghost tree = coll@;
        let ghost ks = tree.kinetic;
        let mut found: Vec<(String, String, String, String)> = Vec::new();
        let mut i: usize = 0;
        assert(ks.subrange(0, 0) =~= Seq::<KineticV>::empty());
        assert(found.deep_view() =~= Seq::<Transition>::empty());
        while i < coll.kinetic.len()
            invariant
                i <= coll.kinetic@.len(),
                coll@ == tree,
                ks == tree.kinetic,
                collapsed_tree(inst@, Seq::empty(), None, use_name) == Ok::<CollapsedV, Error>(
                    tree,
                ),
                transitions_of(ks.subrange(0, i as int), inst@) == Ok::<Seq<Transition>, Error>(
                    found.deep_view(),
                ),
            decreases coll.kinetic@.len() - i,
        {
            let ghost before = found.deep_view();
            assert(ks.subrange(0, i + 1).drop_last() =~= ks.subrange(0, i as int));
            assert(ks.subrange(0, i + 1).last() == coll.kinetic@[i as int]@);
            match transitions(&coll.kinetic[i], inst) {
                Ok(ts) => {
                    let mut ts = ts;
                    let ghost more = ts.deep_view();
                    found.append(&mut ts);
                    assert(found.deep_view() =~= before + more);
                },
                Err(e) => {
                    proof {
                        lemma_of_err(ks, inst@, i + 1);
                    }
                    return Err(e);
                },
            }
            i += 1;
        }
        assert(ks.subrange(0, ks.len() as int) =~= ks);
        let ghost old_ts = coll.transitions.deep_view();
        let ghost new_ts = found.deep_view();
        coll.transitions.append(&mut found);
        assert(coll.transitions.deep_view() =~= old_ts + new_ts);
        Ok(coll)
    }

    /// Collapses the tree below `inst`, seen from inside `ctx`, and adds the
    /// result to this flat form. Where the tree cannot be collapsed, nothing
    /// is added.
    pub fn add(&mut self, inst: &Instance, ctx: &Context, name: Option<String>) -> (r: Result<
        (),
        Error,
    >)
        ensures
            match collapsed_tree(inst@, ctx@, name.deep_view(), true) {
                Ok(o) => r is Ok && final(self)@ == merged(old(self)@, o),
                Err(e) => r == Err::<(), Error>(e) && final(self)@ == old(self)@,
            },
        decreases inst, 4nat,
    {
        match Self::from_instance_(inst, ctx, name, true) {
            Err(e) => Err(e),
            Ok(other) => {
                let ghost a = self@;
                let ghost o = other@;
                let mut other = other;
                self.parameters.absorb(other.parameters);
                self.attributes.absorb(other.attributes);
                self.constants.absorb(other.constants);
                self.exposures.absorb(other.exposures);
                self.variables.append(&mut other.variables);
                self.kinetic.append(&mut other.kinetic);
                self.events.append(&mut other.events);
                assert(self.variables.deep_view() =~= a.variables + o.variables);
                assert(self.kinetic.deep_view() =~= a.kinetic + o.kinetic);
                assert(self.events.deep_view() =~= a.events + o.events);
                Ok(())
            },
        }
    }

    /// The flat form of the tree below `inst`, seen from inside `ctx`.
    pub fn from_instance_(inst: &Instance, ctx: &Context, name: Option<String>, add_name: bool) -> (r:
        Result<Self, Error>)
        ensures
            match r {
                Ok(c) => collapsed_tree(inst@, ctx@, name.deep_view(), add_name) == Ok::<
                    CollapsedV,
                    Error,
                >(c@),
                Err(e) => collapsed_tree(inst@, ctx@, name.deep_view(), add_name) == Err::<
                    CollapsedV,
                    Error,
                >(e),
            },
        decreases inst, 3nat,
    {
        let ct = &inst.component_type;
        let mut scope = ctx.dup();
        let label: String = if add_name {
            match &inst.id {
                Some(id) => id.clone(),
                None => match &name {
                    Some(n) => n.clone(),
                    None => "Unknown".to_owned(),
                },
            }
        } else {
            String::new()
        };
        proof {
            inst.lemma_model();
        }
        let syms = symbols_of(ct);
        scope.enter(label.as_str(), &syms);
        let ghost inner = scope@;
        assert(inner == entered(inst@, ctx@, name.deep_view(), add_name)) by {
            assert(label@ =~= scope_label(inst@, name.deep_view(), add_name));
        }
        let mut result = own_part(inst, &scope);
        let ghost start = result@;

        let mut g: usize = 0;
        while g < inst.children.len()
            invariant
                g <= inst.children@.len(),
                scope@ == inner,
                inner == entered(inst@, ctx@, name.deep_view(), add_name),
                start == own(inst@, inner),
                with_groups(inst@, inner, g as nat, start) == Ok::<CollapsedV, Error>(result@),
            decreases inst.children@.len() - g,
        {
            proof {
                inst.lemma_model();
            }
            let none: Vec<String> = Vec::new();
            scope.enter(inst.children[g].0.as_str(), &none);
            let ghost group = scope@;
            assert(views(none@) =~= Seq::<Seq<char>>::empty());
            assert(group == inner.push((inst@.children[g as int].0, Seq::empty())));
            let ghost acc = result@;
            let mut j: usize = 0;
            while j < inst.children[g].1.len()
                invariant
                    g < inst.children@.len(),
                    j <= inst.children@[g as int].1@.len(),
                    scope@ == group,
                    inner == entered(inst@, ctx@, name.deep_view(), add_name),
                    start == own(inst@, inner),
                    group == inner.push((inst@.children[g as int].0, Seq::empty())),
                    with_groups(inst@, inner, g as nat, start) == Ok::<CollapsedV, Error>(acc),
                    with_members(inst@, group, g as int, j as nat, acc) == Ok::<
                        CollapsedV,
                        Error,
                    >(result@),
                decreases inst.children@[g as int].1@.len() - j,
            {
                proof {
                    inst.lemma_model();
                    assert(decreases_to!(*inst => inst.children));
                    axiom_vec_index_decreases(inst.children, g as int);
                    assert(decreases_to!(inst.children => inst.children[g as int]));
                    assert(decreases_to!(inst.children[g as int] => inst.children[g as int].1));
                    axiom_vec_index_decreases(inst.children[g as int].1, j as int);
                }
                match result.add(&inst.children[g].1[j], &scope, None) {
                    Ok(()) => {},
                    Err(e) => {
                        proof {
                            assert(with_members(inst@, group, g as int, (j + 1) as nat, acc)
                                == Err::<CollapsedV, Error>(e));
                            lemma_members_err(
                                inst@,
                                group,
                                g as int,
                                (j + 1) as nat,
                                acc,
                                inst@.children[g as int].1.len(),
                            );
                            assert(with_groups(inst@, inner, (g + 1) as nat, start) == Err::<
                                CollapsedV,
                                Error,
                            >(e));
                            lemma_groups_err(
                                inst@,
                                inner,
                                (g + 1) as nat,
                                start,
                                inst@.children.len(),
                            );
                        }
                        return Err(e);
                    },
                }
                j += 1;
            }
            scope.exit();
            assert(scope@ =~= inner);
            g += 1;
        }
        let ghost grouped = result@;

        let mut k: usize = 0;
        while k < inst.child.len()
            invariant
                k <= inst.child@.len(),
                scope@ == inner,
                inner == entered(inst@, ctx@, name.deep_view(), add_name),
                start == own(inst@, inner),
                with_groups(inst@, inner, inst@.children.len(), start) == Ok::<
                    CollapsedV,
                    Error,
                >(grouped),
                with_singles(inst@, inner, k as nat, grouped) == Ok::<CollapsedV, Error>(result@),
            decreases inst.child@.len() - k,
        {
            proof {
                inst.lemma_model();
                assert(decreases_to!(*inst => inst.child));
                axiom_vec_index_decreases(inst.child, k as int);
                assert(decreases_to!(inst.child => inst.child[k as int]));
                assert(decreases_to!(inst.child[k as int] => inst.child[k as int].1));
            }
            match result.add(&inst.child[k].1, &scope, Some(inst.child[k].0.clone())) {
                Ok(()) => {},
                Err(e) => {
                    proof {
                        assert(with_singles(inst@, inner, (k + 1) as nat, grouped) == Err::<
                            CollapsedV,
                            Error,
                        >(e));
                        lemma_singles_err(
                            inst@,
                            inner,
                            (k + 1) as nat,
                            grouped,
                            inst@.child.len(),
                        );
                    }
                    return Err(e);
                },
            }
            k += 1;
        }

        let names = result.exposures.keys();
        match resolve_variables(&result.variables, &names) {
            Ok(vs) => {
                result.variables = vs;
                Ok(result)
            },
            Err(e) => Err(e),
        }
    }
}

} // verus!

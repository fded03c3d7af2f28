use vstd::prelude::*;
use vstd::std_specs::vec::axiom_vec_index_decreases;
use crate::context::{dup_names, qualified, scope, Context, Frames};
use crate::dict::Dict;
use crate::expr::{Expr, ExprV, Quantity, QuantityV};
use crate::path::{prefixed, Match, PathV};
use crate::text::views;
use crate::variable::{dup_name, dup_variables, Variable, VariableV};

verus! {

/// A kinetic scheme: states that sit on the nodes of a graph, and rates that
/// sit on its edges. It holds no data of its own, only where to find them:
/// the components on `node` each expose the state variable `state`, and the
/// components on `edge` each expose the rates `rfwd` and `rbwd`.
#[derive(Debug, PartialEq)]
pub struct Kinetic {
    pub name: String,
    pub node: Match,
    pub edge: Match,
    pub state: String,
    pub rfwd: String,
    pub rbwd: String,
}

pub struct KineticV {
    pub name: Seq<char>,
    pub node: Seq<PathV>,
    pub edge: Seq<PathV>,
    pub state: Seq<char>,
    pub rfwd: Seq<char>,
    pub rbwd: Seq<char>,
}

impl Clone for Kinetic {
    fn clone(&self) -> (r: Self)
        ensures
            r@ == self@,
    {
        self.dup()
    }
}

impl DeepView for Kinetic {
    type V = KineticV;

    open spec fn deep_view(&self) -> KineticV {
        KineticV {
            name: self.name@,
            node: self.node@,
            edge: self.edge@,
            state: self.state@,
            rfwd: self.rfwd@,
            rbwd: self.rbwd@,
        }
    }
}

impl View for Kinetic {
    type V = KineticV;

    open spec fn view(&self) -> KineticV {
        self.deep_view()
    }
}

/// The scheme as it reads in the flat namespace: its name qualified, and its
/// two patterns starting at the root.
pub open spec fn kinetic_prefixed(k: KineticV, frames: Frames) -> KineticV {
    KineticV {
        name: qualified(frames, k.name),
        node: prefixed(scope(frames), k.node),
        edge: prefixed(scope(frames), k.edge),
        state: k.state,
        rfwd: k.rfwd,
        rbwd: k.rbwd,
    }
}

impl Kinetic {
    /// A copy.
    pub fn dup(&self) -> (r: Kinetic)
        ensures
            r@ == self@,
    {
        Kinetic {
            name: self.name.clone(),
            node: self.node.dup(),
            edge: self.edge.dup(),
            state: self.state.clone(),
            rfwd: self.rfwd.clone(),
            rbwd: self.rbwd.clone(),
        }
    }

    /// The scheme as it reads in the flat namespace.
    pub fn add_prefix(&self, ctx: &Context) -> (r: Kinetic)
        ensures
            r@ == kinetic_prefixed(self@, ctx@),
    {
        let pfx = ctx.keys();
        Kinetic {
            name: ctx.add_prefix(self.name.as_str()),
            node: self.node.add_prefix(&pfx),
            edge: self.edge.add_prefix(&pfx),
            state: self.state.clone(),
            rfwd: self.rfwd.clone(),
            rbwd: self.rbwd.clone(),
        }
    }
}

/// A component type with all that it declares, its dynamics read.
#[derive(Debug, PartialEq)]
pub struct ComponentType {
    /// The name of the type.
    pub name: String,
    /// The name of the type that this one extends, if any.
    pub base: Option<String>,
    /// Slots that hold one component each, with the type of each.
    pub child: Dict<String>,
    /// Slots that hold any number of components each, with the type from
    /// which the type of each of them derives.
    pub children: Dict<String>,
    /// What the type lets the outside see, with the dimension of each.
    pub exposures: Dict<String>,
    /// The variables of the dynamics.
    pub variables: Vec<Variable>,
    /// The numeric parameters.
    pub parameters: Vec<String>,
    /// The parameters that are text.
    pub attributes: Vec<String>,
    /// The constants.
    pub constants: Dict<Quantity>,
    /// What is assigned when an event comes in: a state variable and its new
    /// value.
    pub events: Vec<(String, Expr)>,
    /// References to components elsewhere, with the type of each.
    pub links: Dict<String>,
    /// The kinetic schemes.
    pub kinetic: Vec<Kinetic>,
}

pub struct ComponentTypeV {
    pub name: Seq<char>,
    pub base: Option<Seq<char>>,
    pub child: Seq<(Seq<char>, Seq<char>)>,
    pub children: Seq<(Seq<char>, Seq<char>)>,
    pub exposures: Seq<(Seq<char>, Seq<char>)>,
    pub variables: Seq<VariableV>,
    pub parameters: Seq<Seq<char>>,
    pub attributes: Seq<Seq<char>>,
    pub constants: Seq<(Seq<char>, QuantityV)>,
    pub events: Seq<(Seq<char>, ExprV)>,
    pub links: Seq<(Seq<char>, Seq<char>)>,
    pub kinetic: Seq<KineticV>,
}

impl Clone for ComponentType {
    fn clone(&self) -> (r: Self)
        ensures
            r@ == self@,
    {
        self.dup()
    }
}

impl DeepView for ComponentType {
    type V = ComponentTypeV;

    open spec fn deep_view(&self) -> ComponentTypeV {
        ComponentTypeV {
            name: self.name@,
            base: self.base.deep_view(),
            child: self.child.deep_view(),
            children: self.children.deep_view(),
            exposures: self.exposures.deep_view(),
            variables: self.variables.deep_view(),
            parameters: views(self.parameters@),
            attributes: views(self.attributes@),
            constants: self.constants.deep_view(),
            events: self.events.deep_view(),
            links: self.links.deep_view(),
            kinetic: self.kinetic.deep_view(),
        }
    }
}

impl View for ComponentType {
    type V = ComponentTypeV;

    open spec fn view(&self) -> ComponentTypeV {
        self.deep_view()
    }
}

/// A component: a component type with values for its parameters and
/// attributes and with components in its slots.
#[derive(Debug, PartialEq)]
pub struct Instance {
    pub component_type: ComponentType,
    /// The components in the slots that hold one each, by slot.
    pub child: Vec<(String, Instance)>,
    /// The components in the slots that hold any number, by slot and in the
    /// order in which they were written.
    pub children: Vec<(String, Vec<Instance>)>,
    pub id: Option<String>,
    pub parameters: Dict<Quantity>,
    pub attributes: Dict<String>,
}

pub struct InstanceV {
    pub component_type: ComponentTypeV,
    pub child: Seq<(Seq<char>, InstanceV)>,
    pub children: Seq<(Seq<char>, Seq<InstanceV>)>,
    pub id: Option<Seq<char>>,
    pub parameters: Seq<(Seq<char>, QuantityV)>,
    pub attributes: Seq<(Seq<char>, Seq<char>)>,
}

impl Instance {
    pub open spec fn model(&self) -> InstanceV
        decreases self,
    {
        InstanceV {
            component_type: self.component_type@,
            child: Seq::new(
                self.child.len() as nat,
                |i: int|
                    if 0 <= i < self.child.len() {
                        (self.child[i].0@, self.child[i].1.model())
                    } else {
                        arbitrary()
                    },
            ),
            children: Seq::new(
                self.children.len() as nat,
                |i: int|
                    if 0 <= i < self.children.len() {
                        (
                            self.children[i].0@,
                            Seq::new(
                                self.children[i].1.len() as nat,
                                |j: int|
                                    if 0 <= j < self.children[i].1.len() {
                                        self.children[i].1[j].model()
                                    } else {
                                        arbitrary()
                                    },
                            ),
                        )
                    } else {
                        arbitrary()
                    },
            ),
            id: self.id.deep_view(),
            parameters: self.parameters.deep_view(),
            attributes: self.attributes.deep_view(),
        }
    }
}

impl Instance {
    /// The model of a component holds the models of the components in its
    /// slots, in their places.
    pub proof fn lemma_model(&self)
        ensures
            self@.component_type == self.component_type@,
            self@.id == self.id.deep_view(),
            self@.parameters == self.parameters.deep_view(),
            self@.attributes == self.attributes.deep_view(),
            self@.child.len() == self.child@.len(),
            forall|i: int|
                0 <= i < self.child@.len() ==> #[trigger] self@.child[i] == (
                    self.child@[i].0@,
                    self.child@[i].1@,
                ),
            self@.children.len() == self.children@.len(),
            forall|g: int|
                0 <= g < self.children@.len() ==> (#[trigger] self@.children[g]).0
                    == self.children@[g].0@ && self@.children[g].1.len()
                    == self.children@[g].1@.len(),
            forall|g: int, j: int|
                0 <= g < self.children@.len() && 0 <= j < self.children@[g].1@.len()
                    ==> #[trigger] self@.children[g].1[j] == self.children@[g].1@[j]@,
    {
    }
}

impl DeepView for Instance {
    type V = InstanceV;

    open spec fn deep_view(&self) -> InstanceV {
        self.model()
    }
}

impl View for Instance {
    type V = InstanceV;

    open spec fn view(&self) -> InstanceV {
        self.model()
    }
}

/// A copy of what the events assign.
pub fn dup_events(v: &Vec<(String, Expr)>) -> (r: Vec<(String, Expr)>)
    ensures
        r.deep_view() == v.deep_view(),
{
    let mut out: Vec<(String, Expr)> = Vec::new();
    let mut i: usize = 0;
    while i < v.len()
        invariant
            i <= v.len(),
            out@.len() == i,
            forall|j: int|
                0 <= j < i ==> (#[trigger] out@[j]).0@ == v@[j].0@ && out@[j].1@ == v@[j].1@,
        decreases v.len() - i,
    {
        out.push((v[i].0.clone(), v[i].1.dup()));
        i += 1;
    }
    assert(out.deep_view() =~= v.deep_view());
    out
}

/// Copies of the schemes.
pub fn dup_kinetic(v: &Vec<Kinetic>) -> (r: Vec<Kinetic>)
    ensures
        r.deep_view() == v.deep_view(),
{
    let mut out: Vec<Kinetic> = Vec::new();
    let mut i: usize = 0;
    while i < v.len()
        invariant
            i <= v.len(),
            out@.len() == i,
            forall|j: int| 0 <= j < i ==> (#[trigger] out@[j])@ == v@[j]@,
        decreases v.len() - i,
    {
        out.push(v[i].dup());
        i += 1;
    }
    assert(out.deep_view() =~= v.deep_view());
    out
}

/// A copy of a dictionary of texts.
pub fn dup_texts(d: &Dict<String>) -> (r: Dict<String>)
    ensures
        r.deep_view() == d.deep_view(),
{
    let mut out: Dict<String> = Dict::new();
    let mut i: usize = 0;
    while i < d.len()
        invariant
            i <= d.entries@.len(),
            out.entries@.len() == i,
            forall|j: int|
                0 <= j < i ==> (#[trigger] out.entries@[j]).0@ == d.entries@[j].0@
                    && out.entries@[j].1@ == d.entries@[j].1@,
        decreases d.entries@.len() - i,
    {
        out.entries.push((d.key_at(i).clone(), d.value_at(i).clone()));
        i += 1;
    }
    assert(out.deep_view() =~= d.deep_view());
    out
}

/// A copy of a dictionary of texts that may be absent.
pub fn dup_optional_texts(d: &Dict<Option<String>>) -> (r: Dict<Option<String>>)
    ensures
        r.deep_view() == d.deep_view(),
{
    let mut out: Dict<Option<String>> = Dict::new();
    let mut i: usize = 0;
    while i < d.len()
        invariant
            i <= d.entries@.len(),
            out.entries@.len() == i,
            forall|j: int|
                0 <= j < i ==> (#[trigger] out.entries@[j]).0@ == d.entries@[j].0@
                    && out.entries@[j].1.deep_view() == d.entries@[j].1.deep_view(),
        decreases d.entries@.len() - i,
    {
        out.entries.push((d.key_at(i).clone(), dup_name(d.value_at(i))));
        i += 1;
    }
    assert(out.deep_view() =~= d.deep_view());
    out
}

/// A copy of a dictionary of quantities.
pub fn dup_quantities(d: &Dict<Quantity>) -> (r: Dict<Quantity>)
    ensures
        r.deep_view() == d.deep_view(),
{
    let mut out: Dict<Quantity> = Dict::new();
    let mut i: usize = 0;
    while i < d.len()
        invariant
            i <= d.entries@.len(),
            out.entries@.len() == i,
            forall|j: int|
                0 <= j < i ==> (#[trigger] out.entries@[j]).0@ == d.entries@[j].0@
                    && out.entries@[j].1@ == d.entries@[j].1@,
        decreases d.entries@.len() - i,
    {
        out.entries.push((d.key_at(i).clone(), d.value_at(i).dup()));
        i += 1;
    }
    assert(out.deep_view() =~= d.deep_view());
    out
}

impl ComponentType {
    /// A copy.
    pub fn dup(&self) -> (r: Self)
        ensures
            r@ == self@,
    {
        ComponentType {
            name: self.name.clone(),
            base: dup_name(&self.base),
            child: dup_texts(&self.child),
            children: dup_texts(&self.children),
            exposures: dup_texts(&self.exposures),
            variables: dup_variables(&self.variables),
            parameters: dup_names(&self.parameters),
            attributes: dup_names(&self.attributes),
            constants: dup_quantities(&self.constants),
            events: dup_events(&self.events),
            links: dup_texts(&self.links),
            kinetic: dup_kinetic(&self.kinetic),
        }
    }
}

impl Instance {
    /// A copy of the component and of all the components in it.
    pub fn dup(&self) -> (r: Self)
        ensures
            r@ == self@,
        decreases self,
    {
        let mut child: Vec<(String, Instance)> = Vec::new();
        let mut i: usize = 0;
        while i < self.child.len()
            invariant
                i <= self.child@.len(),
                child@.len() == i,
                forall|j: int|
                    0 <= j < i ==> (#[trigger] child@[j]).0@ == self.child@[j].0@ && child@[j].1@
                        == self.child@[j].1@,
            decreases self.child@.len() - i,
        {
            proof {
                assert(decreases_to!(*self => self.child));
                axiom_vec_index_decreases(self.child, i as int);
                assert(decreases_to!(self.child[i as int] => self.child[i as int].1));
            }
            child.push((self.child[i].0.clone(), self.child[i].1.dup()));
            i += 1;
        }
        let mut children: Vec<(String, Vec<Instance>)> = Vec::new();
        let mut g: usize = 0;
        while g < self.children.len()
            invariant
                g <= self.children@.len(),
                children@.len() == g,
                forall|j: int|
                    0 <= j < g ==> (#[trigger] children@[j]).0@ == self.children@[j].0@
                        && children@[j].1.deep_view() == self.children@[j].1.deep_view(),
            decreases self.children@.len() - g,
        {
            let mut members: Vec<Instance> = Vec::new();
            let mut m: usize = 0;
            while m < self.children[g].1.len()
                invariant
                    g < self.children@.len(),
                    m <= self.children@[g as int].1@.len(),
                    members@.len() == m,
                    forall|j: int|
                        0 <= j < m ==> (#[trigger] members@[j])@ == self.children@[g as int].1@[j]@,
                decreases self.children@[g as int].1@.len() - m,
            {
                proof {
                    assert(decreases_to!(*self => self.children));
                    axiom_vec_index_decreases(self.children, g as int);
                    assert(decreases_to!(self.children[g as int] => self.children[g as int].1));
                    axiom_vec_index_decreases(self.children[g as int].1, m as int);
                }
                members.push(self.children[g].1[m].dup());
                m += 1;
            }
            assert(members.deep_view() =~= self.children@[g as int].1.deep_view());
            children.push((self.children[g].0.clone(), members));
            g += 1;
        }
        let r = Instance {
            component_type: self.component_type.dup(),
            child,
            children,
            id: dup_name(&self.id),
            parameters: dup_quantities(&self.parameters),
            attributes: dup_texts(&self.attributes),
        };
        proof {
            self.lemma_model();
            r.lemma_model();
            assert(r@.child =~= self@.child);
            assert forall|k: int| 0 <= k < r@.children.len() implies r@.children[k]
                == self@.children[k] by {
                assert(r@.children[k].1 =~= r.children@[k].1.deep_view());
                assert(self@.children[k].1 =~= self.children@[k].1.deep_view());
            }
            assert(r@.children =~= self@.children);
        }
        r
    }
}

impl Clone for Instance {
    fn clone(&self) -> (r: Self)
        ensures
            r@ == self@,
    {
        self.dup()
    }
}

} // verus!

use vstd::prelude::*;
use vstd::std_specs::vec::axiom_vec_index_decreases;
use crate::dict::{entries_view, find, lemma_find, position_in, put, Dict};
use crate::error::Error;
use crate::expr::{Quantity, QuantityV};
use crate::fold::{fold_results, lemma_fold_ends, lemma_fold_err, lemma_fold_step};
use crate::instance::{ComponentType, ComponentTypeV, Instance, InstanceV};
use crate::lems::file::{composed, extends_to, LemsFile, LemsFileV};
use crate::lexicon::{normalised_of, LexiconV};
use crate::text::{contains, same};
use crate::xml::XmlNode;

verus! {

/// The name of the component type of an element: what its attribute `type`
/// says, else its tag.
pub open spec fn kind_name(node: &XmlNode) -> Seq<char> {
    node.attr_or("type"@, node.tag@)
}

/// The values of a component so far: those of its parameters and those of
/// its attributes.
pub type Values = (Seq<(Seq<char>, QuantityV)>, Seq<(Seq<char>, Seq<char>)>);

/// The components in the slots of a component so far: in the single slots
/// and in the groups.
pub type Slots = (Seq<(Seq<char>, InstanceV)>, Seq<(Seq<char>, Seq<InstanceV>)>);

/// The values after one more attribute of the element. The value of a
/// parameter is read as a quantity in base units; the value of an attribute
/// or of a link is kept as it is written; `id` and `type` are passed over; no
/// other attribute may be there.
pub open spec fn with_attribute(ct: ComponentTypeV, lex: LexiconV) -> spec_fn(
    Values,
    (String, String),
) -> Result<Values, Error> {
    |st: Values, a: (String, String)|
        if ct.parameters.contains(a.0@) {
            match normalised_of(lex, a.1@) {
                Ok(q) => Ok((put(st.0, a.0@, q), st.1)),
                Err(e) => Err(e),
            }
        } else if ct.attributes.contains(a.0@) || find(ct.links, a.0@) is Some {
            Ok((st.0, put(st.1, a.0@, a.1@)))
        } else if a.0@ == "id"@ || a.0@ == "type"@ {
            Ok(st)
        } else {
            Err(Error::UnknownKey)
        }
}

/// The groups with `x` at the end of the group `slot`, which is new at the
/// end of the groups where it was not there.
pub open spec fn appended(
    groups: Seq<(Seq<char>, Seq<InstanceV>)>,
    slot: Seq<char>,
    x: InstanceV,
) -> Seq<(Seq<char>, Seq<InstanceV>)> {
    match find(groups, slot) {
        Some(i) => groups.update(i, (slot, groups[i].1.push(x))),
        None => groups.push((slot, seq![x])),
    }
}

/// The groups after the element `c` of `node` has been offered to the first
/// `m` slots for groups of the type: it joins every group whose type its tag
/// is or extends.
pub open spec fn with_slots(
    f: LemsFileV,
    node: &XmlNode,
    ct: ComponentTypeV,
    c: int,
    m: nat,
    acc: Seq<(Seq<char>, Seq<InstanceV>)>,
) -> Result<Seq<(Seq<char>, Seq<InstanceV>)>, Error>
    decreases node, 1nat, m,
{
    if m == 0 || !(0 <= c < node.children.len()) || m > ct.children.len() {
        Ok(acc)
    } else {
        match with_slots(f, node, ct, c, (m - 1) as nat, acc) {
            Err(e) => Err(e),
            Ok(a) => if extends_to(
                f.types,
                node.children[c].tag@,
                ct.children[m - 1].1,
                f.types.len(),
            ) {
                match built(f, &node.children[c]) {
                    Err(e) => Err(e),
                    Ok(x) => Ok(appended(a, ct.children[m - 1].0, x)),
                }
            } else {
                Ok(a)
            },
        }
    }
}

/// The slots after the first `n` elements inside `node` have been placed: an
/// element whose tag names a single slot goes there, any other is offered to
/// the groups, and one that fits nowhere is passed over.
pub open spec fn with_elements(
    f: LemsFileV,
    node: &XmlNode,
    ct: ComponentTypeV,
    n: nat,
    acc: Slots,
) -> Result<Slots, Error>
    decreases node, 2nat, n,
{
    if n == 0 || n > node.children.len() {
        Ok(acc)
    } else {
        match with_elements(f, node, ct, (n - 1) as nat, acc) {
            Err(e) => Err(e),
            Ok(a) => if find(ct.child, node.children[n - 1].tag@) is Some {
                match built(f, &node.children[n - 1]) {
                    Err(e) => Err(e),
                    Ok(x) => Ok((put(a.0, node.children[n - 1].tag@, x), a.1)),
                }
            } else {
                match with_slots(f, node, ct, n - 1, ct.children.len(), a.1) {
                    Err(e) => Err(e),
                    Ok(g) => Ok((a.0, g)),
                }
            },
        }
    }
}

/// The component that the element `node` describes: its type composed, its
/// attributes read as the values of the type's parameters and attributes,
/// and the elements inside it built and placed in the slots of the type.
pub open spec fn built(f: LemsFileV, node: &XmlNode) -> Result<InstanceV, Error>
    decreases node, 3nat, 0nat,
{
    match composed(f, kind_name(node)) {
        Err(e) => Err(e),
        Ok(ct) => match fold_results(
            (Seq::empty(), Seq::empty()),
            node.attributes@,
            with_attribute(ct, f.lexicon),
        ) {
            Err(e) => Err(e),
            Ok(values) => match with_elements(
                f,
                node,
                ct,
                node.children.len() as nat,
                (Seq::empty(), Seq::empty()),
            ) {
                Err(e) => Err(e),
                Ok(slots) => Ok(
                    InstanceV {
                        component_type: ct,
                        child: slots.0,
                        children: slots.1,
                        id: node.attr("id"@),
                        parameters: values.0,
                        attributes: values.1,
                    },
                ),
            },
        },
    }
}

/// An error among the first `m` slots is the error of all of them.
pub proof fn lemma_slots_err(
    f: LemsFileV,
    node: &XmlNode,
    ct: ComponentTypeV,
    c: int,
    m: nat,
    acc: Seq<(Seq<char>, Seq<InstanceV>)>,
    upto: nat,
)
    requires
        0 <= c < node.children.len(),
        m <= upto <= ct.children.len(),
        with_slots(f, node, ct, c, m, acc) is Err,
    ensures
        with_slots(f, node, ct, c, upto, acc) == with_slots(f, node, ct, c, m, acc),
    decreases upto - m,
{
    if m < upto {
        lemma_slots_err(f, node, ct, c, m, acc, (upto - 1) as nat);
    }
}

/// An error among the first `n` elements is the error of all of them.
pub proof fn lemma_elements_err(
    f: LemsFileV,
    node: &XmlNode,
    ct: ComponentTypeV,
    n: nat,
    acc: Slots,
    upto: nat,
)
    requires
        n <= upto <= node.children.len(),
        with_elements(f, node, ct, n, acc) is Err,
    ensures
        with_elements(f, node, ct, upto, acc) == with_elements(f, node, ct, n, acc),
    decreases upto - n,
{
    if n < upto {
        lemma_elements_err(f, node, ct, n, acc, (upto - 1) as nat);
    }
}

/// Reads the attributes of an element as the values of a component of the
/// type `ct`.
pub fn read_values(lems: &LemsFile, ct: &ComponentType, node: &XmlNode) -> (r: Result<
    (Dict<Quantity>, Dict<String>),
    Error,
>)
    ensures
        match r {
            Ok(v) => fold_results(
                (Seq::empty(), Seq::empty()),
                node.attributes@,
                with_attribute(ct@, lems@.lexicon),
            ) == Ok::<Values, Error>((v.0.deep_view(), v.1.deep_view())),
            Err(e) => fold_results(
                (Seq::empty(), Seq::empty()),
                node.attributes@,
                with_attribute(ct@, lems@.lexicon),
            ) == Err::<Values, Error>(e),
        },
{
    let mut parameters: Dict<Quantity> = Dict::new();
    let mut attributes: Dict<String> = Dict::new();
    let ghost init: Values = (Seq::empty(), Seq::empty());
    let ghost f = with_attribute(ct@, lems@.lexicon);
    let mut i: usize = 0;
    proof {
        lemma_fold_ends(init, node.attributes@, f);
    }
    while i < node.attributes.len()
        invariant
            i <= node.attributes@.len(),
            init == (
                Seq::<(Seq<char>, QuantityV)>::empty(),
                Seq::<(Seq<char>, Seq<char>)>::empty(),
            ),
            f == with_attribute(ct@, lems@.lexicon),
            fold_results(init, node.attributes@.subrange(0, i as int), f) == Ok::<Values, Error>(
                (parameters.deep_view(), attributes.deep_view()),
            ),
        decreases node.attributes@.len() - i,
    {
        proof {
            lemma_fold_step(init, node.attributes@, f, i as int);
        }
        let key = node.attributes[i].0.as_str();
        let val = node.attributes[i].1.as_str();
        if contains(&ct.parameters, key) {
            match lems.lexicon.normalise(val) {
                Ok(q) => {
                    parameters.insert(key.to_owned(), q);
                },
                Err(e) => {
                    proof {
                        lemma_fold_err(init, node.attributes@, f, i + 1);
                    }
                    return Err(e);
                },
            }
        } else if contains(&ct.attributes, key) || ct.links.contains_key(key) {
            attributes.insert(key.to_owned(), val.to_owned());
        } else if same(key, "id") || same(key, "type") {
        } else {
            proof {
                lemma_fold_err(init, node.attributes@, f, i + 1);
            }
            return Err(Error::UnknownKey);
        }
        i += 1;
    }
    proof {
        lemma_fold_ends(init, node.attributes@, f);
    }
    Ok((parameters, attributes))
}

/// Puts `x` at the end of the group `slot`.
pub fn append_to(groups: &mut Vec<(String, Vec<Instance>)>, slot: &str, x: Instance)
    ensures
        entries_view(final(groups)@) == appended(entries_view(old(groups)@), slot@, x@),
{
    let ghost before = entries_view(groups@);
    match position_in(groups, slot) {
        Some(i) => {
            let mut e = groups.remove(i);
            let ghost members = e.1.deep_view();
            e.1.push(x);
            assert(e.1.deep_view() =~= members.push(x@));
            proof {
                lemma_find(before, slot@);
            }
            groups.insert(i, e);
            assert(entries_view(groups@) =~= before.update(
                i as int,
                (slot@, before[i as int].1.push(x@)),
            ));
        },
        None => {
            let mut members: Vec<Instance> = Vec::new();
            members.push(x);
            assert(members.deep_view() =~= seq![x@]);
            groups.push((slot.to_owned(), members));
            assert(entries_view(groups@) =~= before.push((slot@, seq![x@])));
        },
    }
}

/// Puts `x` into the single slot `slot`.
pub fn place_in(slots: &mut Vec<(String, Instance)>, slot: &str, x: Instance)
    ensures
        entries_view(final(slots)@) == put(entries_view(old(slots)@), slot@, x@),
{
    let ghost before = entries_view(slots@);
    match position_in(slots, slot) {
        Some(i) => {
            slots.set(i, (slot.to_owned(), x));
            assert(entries_view(slots@) =~= before.update(i as int, (slot@, x@)));
        },
        None => {
            slots.push((slot.to_owned(), x));
            assert(entries_view(slots@) =~= before.push((slot@, x@)));
        },
    }
}

impl Instance {
    /// The component that the element `xml` describes. The type is the one
    /// that the attribute `type` names, else the one named by the tag.
    pub fn new(lems: &LemsFile, xml: &XmlNode) -> (r: Result<Self, Error>)
        ensures
            match r {
                Ok(inst) => built(lems@, xml) == Ok::<InstanceV, Error>(inst@),
                Err(e) => built(lems@, xml) == Err::<InstanceV, Error>(e),
            },
        decreases xml,
    {
        let name = match xml.attribute("type") {
            Some(t) => t.as_str(),
            None => xml.tag.as_str(),
        };
        let component_type = match lems.compose_component_type(name) {
            Ok(ct) => ct,
            Err(e) => {
                return Err(e);
            },
        };
        let (parameters, attributes) = match read_values(lems, &component_type, xml) {
            Ok(v) => v,
            Err(e) => {
                return Err(e);
            },
        };
        let id = xml.optional("id");
        let ghost ct = component_type@;
        let ghost values: Values = (parameters.deep_view(), attributes.deep_view());
        let ghost start: Slots = (Seq::empty(), Seq::empty());
        let mut child: Vec<(String, Instance)> = Vec::new();
        let mut children: Vec<(String, Vec<Instance>)> = Vec::new();
        assert(entries_view(child@) =~= start.0);
        assert(entries_view(children@) =~= start.1);
        let mut n: usize = 0;
        while n < xml.children.len()
            invariant
                n <= xml.children@.len(),
                ct == component_type@,
                start == (
                    Seq::<(Seq<char>, InstanceV)>::empty(),
                    Seq::<(Seq<char>, Seq<InstanceV>)>::empty(),
                ),
                composed(lems@, kind_name(xml)) == Ok::<ComponentTypeV, Error>(ct),
                fold_results(
                    (Seq::empty(), Seq::empty()),
                    xml.attributes@,
                    with_attribute(ct, lems@.lexicon),
                ) == Ok::<Values, Error>(values),
                with_elements(lems@, xml, ct, n as nat, start) == Ok::<Slots, Error>(
                    (entries_view(child@), entries_view(children@)),
                ),
            decreases xml.children@.len() - n,
        {
            let node = &xml.children[n];
            let tag = node.tag.as_str();
            proof {
                assert(decreases_to!(*xml => xml.children));
                axiom_vec_index_decreases(xml.children, n as int);
            }
            let ghost placed = entries_view(child@);
            let ghost grouped = entries_view(children@);
            if component_type.child.contains_key(tag) {
                match Instance::new(lems, node) {
                    Ok(x) => {
                        place_in(&mut child, tag, x);
                    },
                    Err(e) => {
                        proof {
                            lemma_elements_err(
                                lems@,
                                xml,
                                ct,
                                (n + 1) as nat,
                                start,
                                xml.children@.len(),
                            );
                        }
                        return Err(e);
                    },
                }
            } else {
                let mut m: usize = 0;
                while m < component_type.children.len()
                    invariant
                        n < xml.children@.len(),
                        m <= component_type.children.entries@.len(),
                        ct == component_type@,
                        *node == xml.children@[n as int],
                        tag@ == xml.children@[n as int].tag@,
                        start == (
                            Seq::<(Seq<char>, InstanceV)>::empty(),
                            Seq::<(Seq<char>, Seq<InstanceV>)>::empty(),
                        ),
                        composed(lems@, kind_name(xml)) == Ok::<ComponentTypeV, Error>(ct),
                        fold_results(
                            (Seq::empty(), Seq::empty()),
                            xml.attributes@,
                            with_attribute(ct, lems@.lexicon),
                        ) == Ok::<Values, Error>(values),
                        with_elements(lems@, xml, ct, n as nat, start) == Ok::<Slots, Error>(
                            (placed, grouped),
                        ),
                        find(ct.child, tag@).is_none(),
                        entries_view(child@) == placed,
                        with_slots(lems@, xml, ct, n as int, m as nat, grouped) == Ok::<
                            Seq<(Seq<char>, Seq<InstanceV>)>,
                            Error,
                        >(entries_view(children@)),
                    decreases component_type.children.entries@.len() - m,
                {
                    let slot = component_type.children.key_at(m);
                    let ty = component_type.children.value_at(m);
                    proof {
                        assert(decreases_to!(*xml => xml.children));
                        axiom_vec_index_decreases(xml.children, n as int);
                    }
                    if lems.derived_from(tag, ty.as_str()) {
                        match Instance::new(lems, node) {
                            Ok(x) => {
                                append_to(&mut children, slot.as_str(), x);
                            },
                            Err(e) => {
                                proof {
                                    lemma_slots_err(
                                        lems@,
                                        xml,
                                        ct,
                                        n as int,
                                        (m + 1) as nat,
                                        grouped,
                                        ct.children.len(),
                                    );
                                    lemma_elements_err(
                                        lems@,
                                        xml,
                                        ct,
                                        (n + 1) as nat,
                                        start,
                                        xml.children@.len(),
                                    );
                                }
                                return Err(e);
                            },
                        }
                    }
                    m += 1;
                }
            }
            n += 1;
        }
        let inst = Instance { component_type, child, children, id, parameters, attributes };
        proof {
            inst.lemma_model();
            assert(inst@.child =~= entries_view(inst.child@));
            assert forall|g: int| 0 <= g < inst.children@.len() implies entries_view(
                inst.children@,
            )[g] == inst@.children[g] by {
                assert(inst@.children[g].1 =~= inst.children@[g].1.deep_view());
            }
            assert(inst@.children =~= entries_view(inst.children@));
        }
        Ok(inst)
    }
}

} // verus!

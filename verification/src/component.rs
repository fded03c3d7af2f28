use vstd::prelude::*;
use crate::dict::{put, Dict};
use crate::dynamics::{dynamics_applied, lems_dynamics, DynamicsV};
use crate::error::Error;
use crate::expr::ExprV;
use crate::fold::{fold_results, lemma_fold_ends, lemma_fold_err, lemma_fold_step};
use crate::instance::{ComponentType, ComponentTypeV, KineticV};
use crate::lems::raw;
use crate::lexicon::{quantity_of, Lexicon, LexiconV};
use crate::text::{contains, same, views};
use crate::variable::{dup_name, VariableV};

verus! {

/// The names with `n` among them, at the end where it is new.
pub open spec fn with_name(names: Seq<Seq<char>>, n: Seq<char>) -> Seq<Seq<char>> {
    if names.contains(n) {
        names
    } else {
        names.push(n)
    }
}

/// The names that are not `n`, in order.
pub open spec fn without_name(names: Seq<Seq<char>>, n: Seq<char>) -> Seq<Seq<char>>
    decreases names.len(),
{
    if names.len() == 0 {
        Seq::empty()
    } else if names.last() == n {
        without_name(names.drop_last(), n)
    } else {
        without_name(names.drop_last(), n).push(names.last())
    }
}

/// The component type that declares nothing.
pub open spec fn empty_type(name: Seq<char>, base: Option<Seq<char>>) -> ComponentTypeV {
    ComponentTypeV {
        name,
        base,
        child: Seq::empty(),
        children: Seq::empty(),
        exposures: Seq::empty(),
        variables: Seq::empty(),
        parameters: Seq::empty(),
        attributes: Seq::empty(),
        constants: Seq::empty(),
        events: Seq::empty(),
        links: Seq::empty(),
        kinetic: Seq::empty(),
    }
}

/// The dynamics of a component type.
pub open spec fn dynamics_of(ct: ComponentTypeV) -> DynamicsV {
    DynamicsV { variables: ct.variables, events: ct.events, kinetic: ct.kinetic }
}

/// The component type after one more entry of a body. A declaration under a
/// name that is taken replaces the earlier one where that stands. Fixing a
/// parameter takes it from the parameters and makes it a constant. What the
/// library has no use for is passed over.
pub open spec fn with_declaration(lex: LexiconV) -> spec_fn(
    ComponentTypeV,
    raw::ComponentTypeBody,
) -> Result<ComponentTypeV, Error> {
    |ct: ComponentTypeV, b: raw::ComponentTypeBody|
        match b {
            raw::ComponentTypeBody::Child(c) => Ok(
                ComponentTypeV { child: put(ct.child, c.name@, c.type_@), ..ct },
            ),
            raw::ComponentTypeBody::Children(c) => match c.type_ {
                Some(t) => Ok(ComponentTypeV { children: put(ct.children, c.name@, t@), ..ct }),
                None => Err(Error::XmlParse),
            },
            raw::ComponentTypeBody::Parameter(p) => Ok(
                ComponentTypeV { parameters: with_name(ct.parameters, p.name@), ..ct },
            ),
            raw::ComponentTypeBody::Constant(c) => match quantity_of(lex, c.value@) {
                Ok(q) => Ok(ComponentTypeV { constants: put(ct.constants, c.name@, q), ..ct }),
                Err(e) => Err(e),
            },
            raw::ComponentTypeBody::Exposure(e) => Ok(
                ComponentTypeV { exposures: put(ct.exposures, e.name@, e.dimension@), ..ct },
            ),
            raw::ComponentTypeBody::Text(t) => Ok(
                ComponentTypeV { attributes: with_name(ct.attributes, t.name@), ..ct },
            ),
            raw::ComponentTypeBody::Dynamics(d) => match dynamics_applied(
                dynamics_of(ct),
                d.body@,
                lex,
            ) {
                Ok(st) => Ok(
                    ComponentTypeV {
                        variables: st.variables,
                        events: st.events,
                        kinetic: st.kinetic,
                        ..ct
                    },
                ),
                Err(e) => Err(e),
            },
            raw::ComponentTypeBody::Link(t) => Ok(
                ComponentTypeV { links: put(ct.links, t.name@, t.type_@), ..ct },
            ),
            raw::ComponentTypeBody::Fixed(f) => match quantity_of(lex, f.value@) {
                Ok(q) => Ok(
                    ComponentTypeV {
                        parameters: without_name(ct.parameters, f.parameter@),
                        constants: put(ct.constants, f.parameter@, q),
                        ..ct
                    },
                ),
                Err(e) => Err(e),
            },
            _ => Ok(ct),
        }
}

/// The component type after all the entries of a body, in order.
pub open spec fn with_body(ct: ComponentTypeV, body: Seq<raw::ComponentTypeBody>, lex: LexiconV) -> Result<
    ComponentTypeV,
    Error,
> {
    fold_results(ct, body, with_declaration(lex))
}

/// The component type that `ct` declares by itself, whatever it extends.
pub open spec fn component_type_of(ct: raw::ComponentType, lex: LexiconV) -> Result<
    ComponentTypeV,
    Error,
> {
    with_body(empty_type(ct.name@, ct.extends.deep_view()), ct.body@, lex)
}

/// Puts `n` among the names.
pub fn put_name(names: &mut Vec<String>, n: &str)
    ensures
        views(final(names)@) == with_name(views(old(names)@), n@),
{
    if !contains(names, n) {
        let ghost before = views(names@);
        names.push(n.to_owned());
        assert(views(names@) =~= before.push(n@));
    }
}

/// Takes `n` from the names.
pub fn drop_name(names: &mut Vec<String>, n: &str)
    ensures
        views(final(names)@) == without_name(views(old(names)@), n@),
{
    let mut out: Vec<String> = Vec::new();
    let ghost all = views(names@);
    let mut i: usize = 0;
    assert(all.subrange(0, 0) =~= Seq::<Seq<char>>::empty());
    assert(views(out@) =~= Seq::<Seq<char>>::empty());
    while i < names.len()
        invariant
            i <= names.len(),
            all == views(names@),
            views(out@) == without_name(all.subrange(0, i as int), n@),
        decreases names.len() - i,
    {
        let ghost before = views(out@);
        assert(all.subrange(0, i + 1).drop_last() =~= all.subrange(0, i as int));
        assert(all.subrange(0, i + 1).last() == names@[i as int]@);
        if !same(names[i].as_str(), n) {
            out.push(names[i].clone());
            assert(views(out@) =~= before.push(names@[i as int]@));
        }
        i += 1;
    }
    assert(all.subrange(0, names.len() as int) =~= all);
    *names = out;
}

impl ComponentType {
    /// The component type that declares nothing.
    pub fn empty(name: &str, base: &Option<String>) -> (r: Self)
        ensures
            r@ == empty_type(name@, base.deep_view()),
    {
        let r = ComponentType {
            name: name.to_owned(),
            base: dup_name(base),
            child: Dict::new(),
            children: Dict::new(),
            exposures: Dict::new(),
            variables: Vec::new(),
            parameters: Vec::new(),
            attributes: Vec::new(),
            constants: Dict::new(),
            events: Vec::new(),
            links: Dict::new(),
            kinetic: Vec::new(),
        };
        assert(r.variables.deep_view() =~= Seq::<VariableV>::empty());
        assert(r.events.deep_view() =~= Seq::<(Seq<char>, ExprV)>::empty());
        assert(r.kinetic.deep_view() =~= Seq::<KineticV>::empty());
        assert(views(r.parameters@) =~= Seq::<Seq<char>>::empty());
        assert(views(r.attributes@) =~= Seq::<Seq<char>>::empty());
        r
    }

    /// The component type with one more entry of a body taken in.
    pub fn declare(self, b: &raw::ComponentTypeBody, lex: &Lexicon) -> (r: Result<Self, Error>)
        ensures
            match r {
                Ok(ct) => with_declaration(lex@)(self@, *b) == Ok::<ComponentTypeV, Error>(ct@),
                Err(e) => with_declaration(lex@)(self@, *b) == Err::<ComponentTypeV, Error>(e),
            },
    {
        let mut ct = self;
        match b {
            raw::ComponentTypeBody::Child(c) => {
                ct.child.insert(c.name.clone(), c.type_.clone());
                Ok(ct)
            },
            raw::ComponentTypeBody::Children(c) => match &c.type_ {
                Some(t) => {
                    ct.children.insert(c.name.clone(), t.clone());
                    Ok(ct)
                },
                None => Err(Error::XmlParse),
            },
            raw::ComponentTypeBody::Parameter(p) => {
                put_name(&mut ct.parameters, p.name.as_str());
                Ok(ct)
            },
            raw::ComponentTypeBody::Constant(c) => match lex.quantity(c.value.as_str()) {
                Ok(q) => {
                    ct.constants.insert(c.name.clone(), q);
                    Ok(ct)
                },
                Err(e) => Err(e),
            },
            raw::ComponentTypeBody::Exposure(e) => {
                ct.exposures.insert(e.name.clone(), e.dimension.clone());
                Ok(ct)
            },
            raw::ComponentTypeBody::Text(t) => {
                put_name(&mut ct.attributes, t.name.as_str());
                Ok(ct)
            },
            raw::ComponentTypeBody::Dynamics(d) => {
                let mut variables = ct.variables;
                let mut events = ct.events;
                let mut kinetic = ct.kinetic;
                match lems_dynamics(d, lex, &mut variables, &mut events, &mut kinetic) {
                    Ok(()) => {
                        ct.variables = variables;
                        ct.events = events;
                        ct.kinetic = kinetic;
                        Ok(ct)
                    },
                    Err(e) => Err(e),
                }
            },
            raw::ComponentTypeBody::Link(t) => {
                ct.links.insert(t.name.clone(), t.type_.clone());
                Ok(ct)
            },
            raw::ComponentTypeBody::Fixed(f) => match lex.quantity(f.value.as_str()) {
                Ok(q) => {
                    drop_name(&mut ct.parameters, f.parameter.as_str());
                    ct.constants.insert(f.parameter.clone(), q);
                    Ok(ct)
                },
                Err(e) => Err(e),
            },
            _ => Ok(ct),
        }
    }

    /// The component type with all the entries of a body taken in, in order.
    pub fn extend(self, body: &Vec<raw::ComponentTypeBody>, lex: &Lexicon) -> (r: Result<
        Self,
        Error,
    >)
        ensures
            match r {
                Ok(ct) => with_body(self@, body@, lex@) == Ok::<ComponentTypeV, Error>(ct@),
                Err(e) => with_body(self@, body@, lex@) == Err::<ComponentTypeV, Error>(e),
            },
    {
        let ghost init = self@;
        let ghost f = with_declaration(lex@);
        let mut ct = self;
        let mut i: usize = 0;
        proof {
            lemma_fold_ends(init, body@, f);
        }
        while i < body.len()
            invariant
                i <= body.len(),
                init == self@,
                f == with_declaration(lex@),
                fold_results(init, body@.subrange(0, i as int), f) == Ok::<ComponentTypeV, Error>(
                    ct@,
                ),
            decreases body.len() - i,
        {
            proof {
                lemma_fold_step(init, body@, f, i as int);
            }
            ct = match ct.declare(&body[i], lex) {
                Ok(next) => next,
                Err(e) => {
                    proof {
                        lemma_fold_err(init, body@, f, i + 1);
                    }
                    return Err(e);
                },
            };
            i += 1;
        }
        proof {
            lemma_fold_ends(init, body@, f);
        }
        Ok(ct)
    }

    /// The component type that `ct` declares by itself, whatever it extends.
    pub fn from_lems(ct: &raw::ComponentType, lex: &Lexicon) -> (r: Result<Self, Error>)
        ensures
            match r {
                Ok(c) => component_type_of(*ct, lex@) == Ok::<ComponentTypeV, Error>(c@),
                Err(e) => component_type_of(*ct, lex@) == Err::<ComponentTypeV, Error>(e),
            },
    {
        Self::empty(ct.name.as_str(), &ct.extends).extend(&ct.body, lex)
    }
}

} // verus!

use vstd::prelude::*;
use vstd::string::*;
use crate::boolean::{Boolean, BooleanV};
use crate::dict::{find, lemma_find, put};
use crate::error::Error;
use crate::expr::{Expr, ExprV};
use crate::fold::{fold_results, lemma_fold_ends, lemma_fold_err, lemma_fold_step};
use crate::instance::{Kinetic, KineticV};
use crate::lems::raw;
use crate::lexicon::{condition_of, expr_of, Lexicon, LexiconV};
use crate::path::{parsed, Match};
use crate::text::same;
use crate::variable::{dup_opt, SelectBy, VarKind, VarKindV, Variable, VariableV};

verus! {

/// What the dynamics of a component type come to: its variables, what its
/// events assign, and its kinetic schemes.
pub struct DynamicsV {
    pub variables: Seq<VariableV>,
    pub events: Seq<(Seq<char>, ExprV)>,
    pub kinetic: Seq<KineticV>,
}

/// The kinetic scheme that `ks` describes. Its nodes and its edges are all
/// the children of the two groups that it names.
pub open spec fn kinetic_of(ks: raw::KineticScheme) -> Result<KineticV, Error> {
    match (parsed(ks.nodes@ + "[*]"@), parsed(ks.edges@ + "[*]"@)) {
        (Some(node), Some(edge)) => Ok(
            KineticV {
                name: ks.name@,
                node,
                edge,
                state: ks.stateVariable@,
                rfwd: ks.forwardRate@,
                rbwd: ks.reverseRate@,
            },
        ),
        _ => Err(Error::BadExpr),
    }
}

impl Kinetic {
    /// The kinetic scheme that `ks` describes.
    pub fn new(ks: &raw::KineticScheme) -> (r: Result<Self, Error>)
        ensures
            match r {
                Ok(k) => kinetic_of(*ks) == Ok::<KineticV, Error>(k@),
                Err(e) => kinetic_of(*ks) == Err::<KineticV, Error>(e),
            },
    {
        let nodes = ks.nodes.clone().concat("[*]");
        let node = match Match::parse(nodes.as_str()) {
            Ok(m) => m,
            Err(e) => {
                return Err(e);
            },
        };
        let edges = ks.edges.clone().concat("[*]");
        let edge = match Match::parse(edges.as_str()) {
            Ok(m) => m,
            Err(e) => {
                return Err(e);
            },
        };
        Ok(
            Kinetic {
                name: ks.name.clone(),
                node,
                edge,
                state: ks.stateVariable.clone(),
                rfwd: ks.forwardRate.clone(),
                rbwd: ks.reverseRate.clone(),
            },
        )
    }
}

/// The variables by their names.
pub open spec fn by_name(vars: Seq<VariableV>) -> Seq<(Seq<char>, VariableV)> {
    Seq::new(vars.len(), |i: int| (vars[i].name, vars[i]))
}

/// The variables with `v` among them: in place of the variable of the same
/// name if there is one, at the end otherwise.
pub open spec fn with_variable(vars: Seq<VariableV>, v: VariableV) -> Seq<VariableV> {
    match find(by_name(vars), v.name) {
        Some(i) => vars.update(i, v),
        None => vars.push(v),
    }
}

/// The schemes by their names.
pub open spec fn schemes_by_name(ks: Seq<KineticV>) -> Seq<(Seq<char>, KineticV)> {
    Seq::new(ks.len(), |i: int| (ks[i].name, ks[i]))
}

/// The schemes with `k` among them: in place of the scheme of the same name
/// if there is one, at the end otherwise.
pub open spec fn with_scheme(ks: Seq<KineticV>, k: KineticV) -> Seq<KineticV> {
    match find(schemes_by_name(ks), k.name) {
        Some(i) => ks.update(i, k),
        None => ks.push(k),
    }
}

/// Where the state variable `name` stands among the variables.
pub open spec fn state_at(vars: Seq<VariableV>, name: Seq<char>) -> Option<int> {
    match find(by_name(vars), name) {
        Some(i) => if vars[i].kind is State {
            Some(i)
        } else {
            None
        },
        None => None,
    }
}

/// `v` with another kind.
pub open spec fn of_kind(v: VariableV, kind: VarKindV) -> VariableV {
    VariableV { name: v.name, exposure: v.exposure, dimension: v.dimension, kind }
}

/// How the values of a selection become one, as the attribute `reduce` says.
pub open spec fn reduction(reduce: Option<Seq<char>>) -> Result<SelectBy, Error> {
    match reduce {
        None => Ok(SelectBy::Get),
        Some(r) => if r == "add"@ {
            Ok(SelectBy::Sum)
        } else if r == "multiply"@ {
            Ok(SelectBy::Product)
        } else {
            Err(Error::MalformedDynamics)
        },
    }
}

/// The kind of a derived variable: a selection where it names one, else the
/// expression that is its value.
pub open spec fn derived_kind(v: raw::DerivedVariable, lex: LexiconV) -> Result<VarKindV, Error> {
    match v.select {
        Some(s) => match reduction(v.reduce.deep_view()) {
            Err(e) => Err(e),
            Ok(by) => match parsed(s@) {
                Some(m) => Ok(VarKindV::Select(by, m)),
                None => Err(Error::BadExpr),
            },
        },
        None => match v.value {
            Some(e) => match expr_of(lex, e@) {
                Ok(x) => Ok(VarKindV::Derived(Seq::empty(), Some(x))),
                Err(e) => Err(e),
            },
            None => Err(Error::MalformedDynamics),
        },
    }
}

/// The cases and the default of a conditional variable so far.
pub type Cases = (Seq<(BooleanV, ExprV)>, Option<ExprV>);

/// The cases with one more read: a case with a condition joins the cases, a
/// case without becomes the default.
pub open spec fn with_case(lex: LexiconV) -> spec_fn(
    Cases,
    raw::ConditionalDerivedVariableBody,
) -> Result<Cases, Error> {
    |acc: Cases, b: raw::ConditionalDerivedVariableBody|
        match b {
            raw::ConditionalDerivedVariableBody::Case(c) => match expr_of(lex, c.value@) {
                Err(e) => Err(e),
                Ok(x) => match c.condition {
                    Some(t) => match condition_of(lex, t@) {
                        Err(e) => Err(e),
                        Ok(g) => Ok((acc.0.push((g, x)), acc.1)),
                    },
                    None => Ok((acc.0, Some(x))),
                },
            },
        }
}

/// The variables after an assignment at the start: the state variable named
/// gets the value as its initial value.
pub open spec fn with_start(lex: LexiconV) -> spec_fn(Seq<VariableV>, raw::OnStartBody) -> Result<
    Seq<VariableV>,
    Error,
> {
    |vars: Seq<VariableV>, b: raw::OnStartBody|
        match b {
            raw::OnStartBody::StateAssignment(a) => match state_at(vars, a.variable@) {
                None => Err(Error::MalformedDynamics),
                Some(i) => match expr_of(lex, a.value@) {
                    Err(e) => Err(e),
                    Ok(x) => Ok(
                        vars.update(
                            i,
                            of_kind(vars[i], VarKindV::State(Some(x), vars[i].kind->State_1)),
                        ),
                    ),
                },
            },
        }
}

/// What the events assign after one more entry of a handler: an assignment
/// to a state variable is noted, in place of an earlier one to the same
/// variable if there is one; anything else in the handler is passed over.
pub open spec fn with_event(vars: Seq<VariableV>, lex: LexiconV) -> spec_fn(
    Seq<(Seq<char>, ExprV)>,
    raw::OnEventBody,
) -> Result<Seq<(Seq<char>, ExprV)>, Error> {
    |events: Seq<(Seq<char>, ExprV)>, b: raw::OnEventBody|
        match b {
            raw::OnEventBody::StateAssignment(a) => match state_at(vars, a.variable@) {
                None => Err(Error::MalformedDynamics),
                Some(_) => match expr_of(lex, a.value@) {
                    Err(e) => Err(e),
                    Ok(x) => Ok(put(events, a.variable@, x)),
                },
            },
            raw::OnEventBody::EventOut(_) => Ok(events),
        }
}

/// The dynamics after one more entry.
pub open spec fn with_entry(lex: LexiconV) -> spec_fn(DynamicsV, raw::DynamicsBody) -> Result<
    DynamicsV,
    Error,
> {
    |st: DynamicsV, b: raw::DynamicsBody|
        match b {
            raw::DynamicsBody::DerivedVariable(v) => match derived_kind(v, lex) {
                Err(e) => Err(e),
                Ok(kind) => Ok(
                    DynamicsV {
                        variables: with_variable(
                            st.variables,
                            VariableV {
                                name: v.name@,
                                exposure: v.exposure.deep_view(),
                                dimension: v.dimension@,
                                kind,
                            },
                        ),
                        events: st.events,
                        kinetic: st.kinetic,
                    },
                ),
            },
            raw::DynamicsBody::StateVariable(v) => Ok(
                DynamicsV {
                    variables: with_variable(
                        st.variables,
                        VariableV {
                            name: v.name@,
                            exposure: v.exposure.deep_view(),
                            dimension: v.dimension@,
                            kind: VarKindV::State(None, None),
                        },
                    ),
                    events: st.events,
                    kinetic: st.kinetic,
                },
            ),
            raw::DynamicsBody::ConditionalDerivedVariable(v) => match fold_results(
                (Seq::empty(), None),
                v.body@,
                with_case(lex),
            ) {
                Err(e) => Err(e),
                Ok(cases) => Ok(
                    DynamicsV {
                        variables: with_variable(
                            st.variables,
                            VariableV {
                                name: v.name@,
                                exposure: v.exposure.deep_view(),
                                dimension: v.dimension@,
                                kind: VarKindV::Derived(cases.0, cases.1),
                            },
                        ),
                        events: st.events,
                        kinetic: st.kinetic,
                    },
                ),
            },
            raw::DynamicsBody::TimeDerivative(v) => match state_at(st.variables, v.variable@) {
                None => Err(Error::MalformedDynamics),
                Some(i) => match expr_of(lex, v.value@) {
                    Err(e) => Err(e),
                    Ok(x) => Ok(
                        DynamicsV {
                            variables: st.variables.update(
                                i,
                                of_kind(
                                    st.variables[i],
                                    VarKindV::State(st.variables[i].kind->State_0, Some(x)),
                                ),
                            ),
                            events: st.events,
                            kinetic: st.kinetic,
                        },
                    ),
                },
            },
            raw::DynamicsBody::OnStart(v) => match fold_results(
                st.variables,
                v.body@,
                with_start(lex),
            ) {
                Err(e) => Err(e),
                Ok(vars) => Ok(
                    DynamicsV { variables: vars, events: st.events, kinetic: st.kinetic },
                ),
            },
            raw::DynamicsBody::OnEvent(v) => match fold_results(
                st.events,
                v.body@,
                with_event(st.variables, lex),
            ) {
                Err(e) => Err(e),
                Ok(events) => Ok(
                    DynamicsV { variables: st.variables, events, kinetic: st.kinetic },
                ),
            },
            raw::DynamicsBody::KineticScheme(k) => match kinetic_of(k) {
                Err(e) => Err(e),
                Ok(scheme) => Ok(
                    DynamicsV {
                        variables: st.variables,
                        events: st.events,
                        kinetic: with_scheme(st.kinetic, scheme),
                    },
                ),
            },
            raw::DynamicsBody::OnCondition(_) => Ok(st),
            raw::DynamicsBody::Regime(_) => Ok(st),
        }
}

/// What the dynamics `st` become when the entries of `body` are taken in, in
/// order. A variable declared again replaces the earlier declaration where
/// that stands. A derivative, an assignment at the start and an assignment
/// on an event must name a state variable that has been declared before.
pub open spec fn dynamics_applied(st: DynamicsV, body: Seq<raw::DynamicsBody>, lex: LexiconV) -> Result<
    DynamicsV,
    Error,
> {
    fold_results(st, body, with_entry(lex))
}

/// Where the variable `name` stands.
pub fn variable_position(vars: &Vec<Variable>, name: &str) -> (r: Option<usize>)
    ensures
        match r {
            Some(i) => find(by_name(vars.deep_view()), name@) == Some(i as int) && i < vars.len(),
            None => find(by_name(vars.deep_view()), name@).is_none(),
        },
{
    let ghost named = by_name(vars.deep_view());
    let mut i: usize = 0;
    while i < vars.len()
        invariant
            i <= vars.len(),
            named == by_name(vars.deep_view()),
            forall|j: int| 0 <= j < i ==> named[j].0 != name@,
        decreases vars.len() - i,
    {
        if same(vars[i].name.as_str(), name) {
            proof {
                assert(named[i as int].0 == name@);
                lemma_find(named, name@);
            }
            return Some(i);
        }
        i += 1;
    }
    proof {
        lemma_find(named, name@);
    }
    None
}

/// Where the state variable `name` stands.
pub fn state_position(vars: &Vec<Variable>, name: &str) -> (r: Option<usize>)
    ensures
        match r {
            Some(i) => state_at(vars.deep_view(), name@) == Some(i as int) && i < vars.len(),
            None => state_at(vars.deep_view(), name@).is_none(),
        },
{
    match variable_position(vars, name) {
        Some(i) => {
            assert(vars.deep_view()[i as int] == vars@[i as int]@);
            match &vars[i].kind {
                VarKind::State(_, _) => Some(i),
                _ => None,
            }
        },
        None => None,
    }
}

/// Puts `v` among the variables.
pub fn put_variable(vars: &mut Vec<Variable>, v: Variable)
    ensures
        final(vars).deep_view() == with_variable(old(vars).deep_view(), v@),
{
    let ghost before = vars.deep_view();
    match variable_position(vars, v.name.as_str()) {
        Some(i) => {
            vars.set(i, v);
            assert(vars.deep_view() =~= before.update(i as int, v@));
        },
        None => {
            vars.push(v);
            assert(vars.deep_view() =~= before.push(v@));
        },
    }
}

/// Where the scheme `name` stands.
pub fn scheme_position(ks: &Vec<Kinetic>, name: &str) -> (r: Option<usize>)
    ensures
        match r {
            Some(i) => find(schemes_by_name(ks.deep_view()), name@) == Some(i as int) && i
                < ks.len(),
            None => find(schemes_by_name(ks.deep_view()), name@).is_none(),
        },
{
    let ghost named = schemes_by_name(ks.deep_view());
    let mut i: usize = 0;
    while i < ks.len()
        invariant
            i <= ks.len(),
            named == schemes_by_name(ks.deep_view()),
            forall|j: int| 0 <= j < i ==> named[j].0 != name@,
        decreases ks.len() - i,
    {
        if same(ks[i].name.as_str(), name) {
            proof {
                assert(named[i as int].0 == name@);
                lemma_find(named, name@);
            }
            return Some(i);
        }
        i += 1;
    }
    proof {
        lemma_find(named, name@);
    }
    None
}

/// Puts `k` among the schemes.
pub fn put_scheme(ks: &mut Vec<Kinetic>, k: Kinetic)
    ensures
        final(ks).deep_view() == with_scheme(old(ks).deep_view(), k@),
{
    let ghost before = ks.deep_view();
    match scheme_position(ks, k.name.as_str()) {
        Some(i) => {
            ks.set(i, k);
            assert(ks.deep_view() =~= before.update(i as int, k@));
        },
        None => {
            ks.push(k);
            assert(ks.deep_view() =~= before.push(k@));
        },
    }
}

/// How the values of a selection become one, as the attribute `reduce` says.
pub fn reduce_by(reduce: &Option<String>) -> (r: Result<SelectBy, Error>)
    ensures
        r == reduction(reduce.deep_view()),
{
    match reduce {
        None => Ok(SelectBy::Get),
        Some(x) => {
            if same(x.as_str(), "add") {
                Ok(SelectBy::Sum)
            } else if same(x.as_str(), "multiply") {
                Ok(SelectBy::Product)
            } else {
                Err(Error::MalformedDynamics)
            }
        },
    }
}

/// The kind of a derived variable.
pub fn kind_of_derived(v: &raw::DerivedVariable, lex: &Lexicon) -> (r: Result<VarKind, Error>)
    ensures
        match r {
            Ok(k) => derived_kind(*v, lex@) == Ok::<VarKindV, Error>(k@),
            Err(e) => derived_kind(*v, lex@) == Err::<VarKindV, Error>(e),
        },
{
    match &v.select {
        Some(s) => {
            let by = match reduce_by(&v.reduce) {
                Ok(by) => by,
                Err(e) => {
                    return Err(e);
                },
            };
            match Match::parse(s.as_str()) {
                Ok(m) => Ok(VarKind::Select(by, m)),
                Err(e) => Err(e),
            }
        },
        None => match &v.value {
            Some(e) => match lex.expr(e.as_str()) {
                Ok(x) => {
                    let cases: Vec<(Boolean, Expr)> = Vec::new();
                    assert(cases.deep_view() =~= Seq::<(BooleanV, ExprV)>::empty());
                    Ok(VarKind::Derived(cases, Some(x)))
                },
                Err(e) => Err(e),
            },
            None => Err(Error::MalformedDynamics),
        },
    }
}

/// The cases and the default of a conditional variable.
pub fn read_cases(body: &Vec<raw::ConditionalDerivedVariableBody>, lex: &Lexicon) -> (r: Result<
    (Vec<(Boolean, Expr)>, Option<Expr>),
    Error,
>)
    ensures
        match r {
            Ok(c) => fold_results((Seq::empty(), None), body@, with_case(lex@)) == Ok::<
                Cases,
                Error,
            >((c.0.deep_view(), c.1.deep_view())),
            Err(e) => fold_results((Seq::empty(), None), body@, with_case(lex@)) == Err::<
                Cases,
                Error,
            >(e),
        },
{
    let mut cs: Vec<(Boolean, Expr)> = Vec::new();
    let mut df: Option<Expr> = None;
    let ghost init: Cases = (Seq::empty(), None);
    let mut i: usize = 0;
    proof {
        lemma_fold_ends(init, body@, with_case(lex@));
        assert(cs.deep_view() =~= Seq::<(BooleanV, ExprV)>::empty());
    }
    while i < body.len()
        invariant
            i <= body.len(),
            init == (Seq::<(BooleanV, ExprV)>::empty(), None::<ExprV>),
            fold_results(init, body@.subrange(0, i as int), with_case(lex@)) == Ok::<Cases, Error>(
                (cs.deep_view(), df.deep_view()),
            ),
        decreases body.len() - i,
    {
        proof {
            lemma_fold_step(init, body@, with_case(lex@), i as int);
        }
        let ghost before = cs.deep_view();
        match &body[i] {
            raw::ConditionalDerivedVariableBody::Case(c) => {
                let x = match lex.expr(c.value.as_str()) {
                    Ok(x) => x,
                    Err(e) => {
                        proof {
                            lemma_fold_err(init, body@, with_case(lex@), i + 1);
                        }
                        return Err(e);
                    },
                };
                match &c.condition {
                    Some(t) => {
                        let g = match lex.condition(t.as_str()) {
                            Ok(g) => g,
                            Err(e) => {
                                proof {
                                    lemma_fold_err(init, body@, with_case(lex@), i + 1);
                                }
                                return Err(e);
                            },
                        };
                        cs.push((g, x));
                        assert(cs.deep_view() =~= before.push((g@, x@)));
                    },
                    None => {
                        df = Some(x);
                    },
                }
            },
        }
        i += 1;
    }
    proof {
        lemma_fold_ends(init, body@, with_case(lex@));
    }
    Ok((cs, df))
}

/// Sets the kind of the variable at `i`.
fn set_kind(vars: &mut Vec<Variable>, i: usize, kind: VarKind)
    requires
        i < old(vars).len(),
    ensures
        final(vars).deep_view() == old(vars).deep_view().update(
            i as int,
            of_kind(old(vars).deep_view()[i as int], kind@),
        ),
{
    let ghost before = vars.deep_view();
    assert(before[i as int] == vars@[i as int]@);
    let v = Variable {
        name: vars[i].name.clone(),
        exposure: crate::variable::dup_name(&vars[i].exposure),
        dimension: vars[i].dimension.clone(),
        kind,
    };
    vars.set(i, v);
    assert(vars.deep_view() =~= before.update(i as int, of_kind(before[i as int], kind@)));
}

/// Takes in the assignments made at the start.
pub fn apply_start(body: &Vec<raw::OnStartBody>, lex: &Lexicon, variables: &mut Vec<Variable>) -> (r:
    Result<(), Error>)
    ensures
        match r {
            Ok(()) => fold_results(old(variables).deep_view(), body@, with_start(lex@)) == Ok::<
                Seq<VariableV>,
                Error,
            >(final(variables).deep_view()),
            Err(e) => fold_results(old(variables).deep_view(), body@, with_start(lex@)) == Err::<
                Seq<VariableV>,
                Error,
            >(e),
        },
{
    let ghost init = variables.deep_view();
    let mut i: usize = 0;
    proof {
        lemma_fold_ends(init, body@, with_start(lex@));
    }
    while i < body.len()
        invariant
            i <= body.len(),
            init == old(variables).deep_view(),
            fold_results(init, body@.subrange(0, i as int), with_start(lex@)) == Ok::<
                Seq<VariableV>,
                Error,
            >(variables.deep_view()),
        decreases body.len() - i,
    {
        proof {
            lemma_fold_step(init, body@, with_start(lex@), i as int);
        }
        match &body[i] {
            raw::OnStartBody::StateAssignment(a) => {
                let at = match state_position(variables, a.variable.as_str()) {
                    Some(at) => at,
                    None => {
                        proof {
                            lemma_fold_err(init, body@, with_start(lex@), i + 1);
                        }
                        return Err(Error::MalformedDynamics);
                    },
                };
                let x = match lex.expr(a.value.as_str()) {
                    Ok(x) => x,
                    Err(e) => {
                        proof {
                            lemma_fold_err(init, body@, with_start(lex@), i + 1);
                        }
                        return Err(e);
                    },
                };
                assert(variables.deep_view()[at as int] == variables@[at as int]@);
                let d = match &variables[at].kind {
                    VarKind::State(_, d) => dup_opt(d),
                    _ => None,
                };
                set_kind(variables, at, VarKind::State(Some(x), d));
            },
        }
        i += 1;
    }
    proof {
        lemma_fold_ends(init, body@, with_start(lex@));
    }
    Ok(())
}

/// Puts an assignment among what the events assign.
fn put_event(events: &mut Vec<(String, Expr)>, name: String, x: Expr)
    ensures
        final(events).deep_view() == put(old(events).deep_view(), name@, x@),
{
    let ghost before = events.deep_view();
    assert(crate::dict::entries_view(events@) =~= before);
    match crate::dict::position_in(events, name.as_str()) {
        Some(i) => {
            events.set(i, (name, x));
            assert(events.deep_view() =~= before.update(i as int, (name@, x@)));
        },
        None => {
            events.push((name, x));
            assert(events.deep_view() =~= before.push((name@, x@)));
        },
    }
}

/// Takes in what a handler of events assigns.
pub fn apply_events(
    body: &Vec<raw::OnEventBody>,
    lex: &Lexicon,
    variables: &Vec<Variable>,
    events: &mut Vec<(String, Expr)>,
) -> (r: Result<(), Error>)
    ensures
        match r {
            Ok(()) => fold_results(
                old(events).deep_view(),
                body@,
                with_event(variables.deep_view(), lex@),
            ) == Ok::<Seq<(Seq<char>, ExprV)>, Error>(final(events).deep_view()),
            Err(e) => fold_results(
                old(events).deep_view(),
                body@,
                with_event(variables.deep_view(), lex@),
            ) == Err::<Seq<(Seq<char>, ExprV)>, Error>(e),
        },
{
    let ghost init = events.deep_view();
    let ghost f = with_event(variables.deep_view(), lex@);
    let mut i: usize = 0;
    proof {
        lemma_fold_ends(init, body@, f);
    }
    while i < body.len()
        invariant
            i <= body.len(),
            init == old(events).deep_view(),
            f == with_event(variables.deep_view(), lex@),
            fold_results(init, body@.subrange(0, i as int), f) == Ok::<
                Seq<(Seq<char>, ExprV)>,
                Error,
            >(events.deep_view()),
        decreases body.len() - i,
    {
        proof {
            lemma_fold_step(init, body@, f, i as int);
        }
        match &body[i] {
            raw::OnEventBody::StateAssignment(a) => {
                match state_position(variables, a.variable.as_str()) {
                    Some(_) => {},
                    None => {
                        proof {
                            lemma_fold_err(init, body@, f, i + 1);
                        }
                        return Err(Error::MalformedDynamics);
                    },
                }
                let x = match lex.expr(a.value.as_str()) {
                    Ok(x) => x,
                    Err(e) => {
                        proof {
                            lemma_fold_err(init, body@, f, i + 1);
                        }
                        return Err(e);
                    },
                };
                put_event(events, a.variable.clone(), x);
            },
            raw::OnEventBody::EventOut(_) => {},
        }
        i += 1;
    }
    proof {
        lemma_fold_ends(init, body@, f);
    }
    Ok(())
}

/// The dynamics that the three lists stand for.
pub open spec fn dynamics_view(
    variables: &Vec<Variable>,
    events: &Vec<(String, Expr)>,
    kinetic: &Vec<Kinetic>,
) -> DynamicsV {
    DynamicsV {
        variables: variables.deep_view(),
        events: events.deep_view(),
        kinetic: kinetic.deep_view(),
    }
}

/// Takes in one entry of the dynamics. After an error nothing is promised
/// of the three lists.
pub fn apply_entry(
    b: &raw::DynamicsBody,
    lex: &Lexicon,
    variables: &mut Vec<Variable>,
    events: &mut Vec<(String, Expr)>,
    kinetic: &mut Vec<Kinetic>,
) -> (r: Result<(), Error>)
    ensures
        match r {
            Ok(()) => with_entry(lex@)(dynamics_view(old(variables), old(events), old(kinetic)), *b)
                == Ok::<DynamicsV, Error>(
                dynamics_view(final(variables), final(events), final(kinetic)),
            ),
            Err(e) => with_entry(lex@)(dynamics_view(old(variables), old(events), old(kinetic)), *b)
                == Err::<DynamicsV, Error>(e),
        },
{
    match b {
        raw::DynamicsBody::DerivedVariable(v) => {
            let kind = match kind_of_derived(v, lex) {
                Ok(k) => k,
                Err(e) => {
                    return Err(e);
                },
            };
            put_variable(
                variables,
                Variable {
                    name: v.name.clone(),
                    exposure: crate::variable::dup_name(&v.exposure),
                    dimension: v.dimension.clone(),
                    kind,
                },
            );
            Ok(())
        },
        raw::DynamicsBody::StateVariable(v) => {
            put_variable(
                variables,
                Variable {
                    name: v.name.clone(),
                    exposure: crate::variable::dup_name(&v.exposure),
                    dimension: v.dimension.clone(),
                    kind: VarKind::State(None, None),
                },
            );
            Ok(())
        },
        raw::DynamicsBody::ConditionalDerivedVariable(v) => {
            let (cs, df) = match read_cases(&v.body, lex) {
                Ok(c) => c,
                Err(e) => {
                    return Err(e);
                },
            };
            put_variable(
                variables,
                Variable {
                    name: v.name.clone(),
                    exposure: crate::variable::dup_name(&v.exposure),
                    dimension: v.dimension.clone(),
                    kind: VarKind::Derived(cs, df),
                },
            );
            Ok(())
        },
        raw::DynamicsBody::TimeDerivative(v) => {
            let at = match state_position(variables, v.variable.as_str()) {
                Some(at) => at,
                None => {
                    return Err(Error::MalformedDynamics);
                },
            };
            let x = match lex.expr(v.value.as_str()) {
                Ok(x) => x,
                Err(e) => {
                    return Err(e);
                },
            };
            assert(variables.deep_view()[at as int] == variables@[at as int]@);
            let init = match &variables[at].kind {
                VarKind::State(i, _) => dup_opt(i),
                _ => None,
            };
            set_kind(variables, at, VarKind::State(init, Some(x)));
            Ok(())
        },
        raw::DynamicsBody::OnStart(v) => apply_start(&v.body, lex, variables),
        raw::DynamicsBody::OnEvent(v) => apply_events(&v.body, lex, variables, events),
        raw::DynamicsBody::KineticScheme(k) => {
            let scheme = match Kinetic::new(k) {
                Ok(s) => s,
                Err(e) => {
                    return Err(e);
                },
            };
            put_scheme(kinetic, scheme);
            Ok(())
        },
        raw::DynamicsBody::OnCondition(_) => Ok(()),
        raw::DynamicsBody::Regime(_) => Ok(()),
    }
}

/// Takes in the dynamics of a component type: the variables, what the events
/// assign and the kinetic schemes are extended by what `dynamics` declares.
/// Where an entry is refused, the three lists stay as they were.
pub fn lems_dynamics(
    dynamics: &raw::Dynamics,
    lex: &Lexicon,
    variables: &mut Vec<Variable>,
    events: &mut Vec<(String, Expr)>,
    kinetic: &mut Vec<Kinetic>,
) -> (r: Result<(), Error>)
    ensures
        match dynamics_applied(
            dynamics_view(old(variables), old(events), old(kinetic)),
            dynamics.body@,
            lex@,
        ) {
            Ok(st) => r is Ok && dynamics_view(final(variables), final(events), final(kinetic))
                == st,
            Err(e) => r == Err::<(), Error>(e) && dynamics_view(
                final(variables),
                final(events),
                final(kinetic),
            ) == dynamics_view(old(variables), old(events), old(kinetic)),
        },
{
    let ghost init = dynamics_view(variables, events, kinetic);
    let ghost f = with_entry(lex@);
    let mut vs = crate::variable::dup_variables(variables);
    let mut es = crate::instance::dup_events(events);
    let mut ks = crate::instance::dup_kinetic(kinetic);
    let mut i: usize = 0;
    proof {
        lemma_fold_ends(init, dynamics.body@, f);
    }
    while i < dynamics.body.len()
        invariant
            i <= dynamics.body@.len(),
            f == with_entry(lex@),
            init == dynamics_view(variables, events, kinetic),
            fold_results(init, dynamics.body@.subrange(0, i as int), f) == Ok::<DynamicsV, Error>(
                dynamics_view(&vs, &es, &ks),
            ),
        decreases dynamics.body@.len() - i,
    {
        proof {
            lemma_fold_step(init, dynamics.body@, f, i as int);
        }
        match apply_entry(&dynamics.body[i], lex, &mut vs, &mut es, &mut ks) {
            Ok(()) => {},
            Err(e) => {
                proof {
                    lemma_fold_err(init, dynamics.body@, f, i + 1);
                }
                return Err(e);
            },
        }
        i += 1;
    }
    proof {
        lemma_fold_ends(init, dynamics.body@, f);
    }
    *variables = vs;
    *events = es;
    *kinetic = ks;
    Ok(())
}

} // verus!

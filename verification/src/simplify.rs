use vstd::prelude::*;
use vstd::string::*;
use crate::collapsed::{Collapsed, CollapsedV};
use crate::dict::{put_all, Dict};
use crate::error::Error;
use crate::expr::{Expr, ExprV, Quantity, QuantityV};
use crate::instance::{dup_events, dup_kinetic, dup_optional_texts, dup_texts};
use crate::text::{same, split, split_on, starts_with, views};
use crate::variable::{dup_name, dup_variables, propagated_kind, VarKind, VarKindV, Variable, VariableV};

verus! {

/// The most rounds of propagation that are run. Propagation ends when a round
/// changes nothing; definitions that chase each other in a circle never get
/// there, and the count is there so that the loop is seen to end.
pub const ROUNDS: u64 = 0xFFFF_FFFF_FFFF_FFFF;

/// Whether a token of a filter starts with a sign.
pub open spec fn signed(token: Seq<char>) -> bool {
    token.len() > 0 && (token[0] == '+' || token[0] == '-')
}

/// Whether every token starts with a sign.
pub open spec fn well_signed(tokens: Seq<Seq<char>>) -> bool {
    forall|i: int| 0 <= i < tokens.len() ==> signed(#[trigger] tokens[i])
}

/// Whether what follows the sign of a token speaks of `name`: a stem with a
/// `*` behind it speaks of every name that starts with the stem, anything
/// else of the one name it spells.
pub open spec fn covers(stem: Seq<char>, name: Seq<char>) -> bool {
    if stem.len() > 0 && stem.last() == '*' {
        stem.drop_last().is_prefix_of(name)
    } else {
        stem == name
    }
}

/// Whether the tokens keep the parameter `name`: the last token that speaks
/// of it decides, `+` for and `-` against, and a name that no token speaks of
/// is not kept.
pub open spec fn kept_by(tokens: Seq<Seq<char>>, name: Seq<char>) -> bool
    decreases tokens.len(),
{
    if tokens.len() == 0 {
        false
    } else {
        let t = tokens.last();
        if signed(t) && covers(t.subrange(1, t.len() as int), name) {
            t[0] == '+'
        } else {
            kept_by(tokens.drop_last(), name)
        }
    }
}

/// Whether a parameter stays after simplification: one without a value
/// always does, since it is left for the user to set; one with a value does
/// where the tokens keep it.
pub open spec fn retained(tokens: Seq<Seq<char>>, name: Seq<char>, value: Option<QuantityV>) -> bool {
    value is None || kept_by(tokens, name)
}

/// The parameters that stay, in order.
pub open spec fn kept_parameters(
    params: Seq<(Seq<char>, Option<QuantityV>)>,
    tokens: Seq<Seq<char>>,
) -> Seq<(Seq<char>, Option<QuantityV>)>
    decreases params.len(),
{
    if params.len() == 0 {
        Seq::empty()
    } else {
        let head = kept_parameters(params.drop_last(), tokens);
        if retained(tokens, params.last().0, params.last().1) {
            head.push(params.last())
        } else {
            head
        }
    }
}

/// The values of the parameters that do not stay, as literals.
pub open spec fn dropped_values(
    params: Seq<(Seq<char>, Option<QuantityV>)>,
    tokens: Seq<Seq<char>>,
) -> Seq<(Seq<char>, ExprV)>
    decreases params.len(),
{
    if params.len() == 0 {
        Seq::empty()
    } else {
        let head = dropped_values(params.drop_last(), tokens);
        match params.last().1 {
            Some(q) => if kept_by(tokens, params.last().0) {
                head
            } else {
                head.push((params.last().0, ExprV::Num(q.value)))
            },
            None => head,
        }
    }
}

/// The values of the constants, as literals.
pub open spec fn constant_values(cs: Seq<(Seq<char>, QuantityV)>) -> Seq<(Seq<char>, ExprV)> {
    Seq::new(cs.len(), |i: int| (cs[i].0, ExprV::Num(cs[i].1.value)))
}

/// Whether a variable is nothing but a literal or another name for a symbol.
pub open spec fn is_trivial(v: VariableV) -> bool {
    match v.kind {
        VarKindV::Derived(cs, Some(k)) => cs.len() == 0 && (k is Num || k is Var),
        _ => false,
    }
}

/// What each trivial variable stands for.
pub open spec fn trivial_values(vars: Seq<VariableV>) -> Seq<(Seq<char>, ExprV)>
    decreases vars.len(),
{
    if vars.len() == 0 {
        Seq::empty()
    } else {
        let head = trivial_values(vars.drop_last());
        if is_trivial(vars.last()) {
            head.push((vars.last().name, vars.last().kind->Derived_1->Some_0))
        } else {
            head
        }
    }
}

/// What is put in place of which name in one round: the value of each
/// parameter that does not stay, the value of each constant, and what each
/// trivial variable stands for. Of two entries for one name the later wins.
pub open spec fn table_of(x: CollapsedV, tokens: Seq<Seq<char>>, vars: Seq<VariableV>) -> Seq<
    (Seq<char>, ExprV),
> {
    put_all(
        put_all(
            put_all(Seq::empty(), dropped_values(x.parameters, tokens)),
            constant_values(x.constants),
        ),
        trivial_values(vars),
    )
}

/// The variables after one round with `table`.
pub open spec fn stepped(vars: Seq<VariableV>, table: Seq<(Seq<char>, ExprV)>) -> Seq<VariableV> {
    Seq::new(
        vars.len(),
        |i: int|
            VariableV {
                name: vars[i].name,
                exposure: vars[i].exposure,
                dimension: vars[i].dimension,
                kind: propagated_kind(vars[i].kind, table),
            },
    )
}

/// The variables after one round of propagation in `x`.
pub open spec fn round(x: CollapsedV, tokens: Seq<Seq<char>>, vars: Seq<VariableV>) -> Seq<
    VariableV,
> {
    stepped(vars, table_of(x, tokens, vars))
}

/// The variables after rounds of propagation up to the first that changes
/// nothing, or after `fuel` rounds where none of those does.
pub open spec fn settled(
    x: CollapsedV,
    tokens: Seq<Seq<char>>,
    vars: Seq<VariableV>,
    fuel: nat,
) -> Seq<VariableV>
    decreases fuel,
{
    if fuel == 0 || round(x, tokens, vars) == vars {
        vars
    } else {
        settled(x, tokens, round(x, tokens, vars), (fuel - 1) as nat)
    }
}

/// `x` simplified under the tokens of a filter: its variables propagated
/// until they settle, its constants gone, and of its parameters those left
/// that stay.
pub open spec fn simplified_form(x: CollapsedV, tokens: Seq<Seq<char>>) -> CollapsedV {
    CollapsedV {
        name: x.name,
        exposures: x.exposures,
        variables: settled(x, tokens, x.variables, ROUNDS as nat),
        constants: Seq::empty(),
        parameters: kept_parameters(x.parameters, tokens),
        attributes: x.attributes,
        events: x.events,
        kinetic: x.kinetic,
        transitions: x.transitions,
    }
}

/// Whether a token starts with a sign.
pub fn is_signed(token: &str) -> (r: bool)
    ensures
        r == signed(token@),
{
    if token.unicode_len() == 0 {
        return false;
    }
    let c = token.get_char(0);
    c == '+' || c == '-'
}

/// Whether every token starts with a sign.
pub fn all_signed(tokens: &Vec<String>) -> (r: bool)
    ensures
        r == well_signed(views(tokens@)),
{
    let mut i: usize = 0;
    while i < tokens.len()
        invariant
            i <= tokens.len(),
            forall|j: int| 0 <= j < i ==> signed(#[trigger] views(tokens@)[j]),
        decreases tokens.len() - i,
    {
        if !is_signed(tokens[i].as_str()) {
            assert(!signed(views(tokens@)[i as int]));
            return false;
        }
        i += 1;
    }
    true
}

/// Whether the tokens keep the parameter `name`.
pub fn keeps(tokens: &Vec<String>, name: &str) -> (r: bool)
    ensures
        r == kept_by(views(tokens@), name@),
{
    let ghost all = views(tokens@);
    let mut i: usize = tokens.len();
    assert(all.subrange(0, i as int) =~= all);
    while i > 0
        invariant
            i <= tokens.len(),
            all == views(tokens@),
            kept_by(all, name@) == kept_by(all.subrange(0, i as int), name@),
        decreases i,
    {
        let ghost cur = all.subrange(0, i as int);
        assert(cur.last() == tokens@[i - 1]@);
        assert(cur.drop_last() =~= all.subrange(0, i - 1));
        let t = tokens[i - 1].as_str();
        if is_signed(t) {
            let n = t.unicode_len();
            let stem = t.substring_char(1, n);
            let m = n - 1;
            let hit = if m > 0 && stem.get_char(m - 1) == '*' {
                let head = stem.substring_char(0, m - 1);
                assert(head@ =~= stem@.drop_last());
                starts_with(name, head)
            } else {
                same(stem, name)
            };
            if hit {
                return t.get_char(0) == '+';
            }
        }
        i -= 1;
    }
    false
}

fn dup_value(v: &Option<Quantity>) -> (r: Option<Quantity>)
    ensures
        r.deep_view() == v.deep_view(),
{
    match v {
        Some(q) => Some(q.dup()),
        None => None,
    }
}

/// The parameters that stay, in order.
pub fn keep_parameters(params: &Dict<Option<Quantity>>, tokens: &Vec<String>) -> (r: Dict<
    Option<Quantity>,
>)
    ensures
        r.deep_view() == kept_parameters(params.deep_view(), views(tokens@)),
{
    let mut out: Dict<Option<Quantity>> = Dict::new();
    let ghost all = params.deep_view();
    let ghost toks = views(tokens@);
    let mut i: usize = 0;
    assert(all.subrange(0, 0) =~= Seq::<(Seq<char>, Option<QuantityV>)>::empty());
    while i < params.len()
        invariant
            i <= params.entries@.len(),
            all == params.deep_view(),
            toks == views(tokens@),
            out.deep_view() == kept_parameters(all.subrange(0, i as int), toks),
        decreases params.entries@.len() - i,
    {
        let ghost before = out.deep_view();
        assert(all.subrange(0, i + 1).drop_last() =~= all.subrange(0, i as int));
        assert(all.subrange(0, i + 1).last() == all[i as int]);
        let k = params.key_at(i);
        let v = params.value_at(i);
        if v.is_none() || keeps(tokens, k.as_str()) {
            out.entries.push((k.clone(), dup_value(v)));
            assert(out.deep_view() =~= before.push(all[i as int]));
        }
        i += 1;
    }
    assert(all.subrange(0, params.entries@.len() as int) =~= all);
    out
}

/// What is put in place of which name in one round.
pub fn table(x: &Collapsed, tokens: &Vec<String>, vars: &Vec<Variable>) -> (r: Dict<Expr>)
    ensures
        r.deep_view() == table_of(x@, views(tokens@), vars.deep_view()),
{
    let ghost toks = views(tokens@);
    let mut out: Dict<Expr> = Dict::new();

    let ghost ps = x@.parameters;
    let mut i: usize = 0;
    assert(ps.subrange(0, 0) =~= Seq::<(Seq<char>, Option<QuantityV>)>::empty());
    while i < x.parameters.len()
        invariant
            i <= x.parameters.entries@.len(),
            ps == x@.parameters,
            toks == views(tokens@),
            out.deep_view() == put_all(
                Seq::empty(),
                dropped_values(ps.subrange(0, i as int), toks),
            ),
        decreases x.parameters.entries@.len() - i,
    {
        assert(ps.subrange(0, i + 1).drop_last() =~= ps.subrange(0, i as int));
        assert(ps.subrange(0, i + 1).last() == ps[i as int]);
        let k = x.parameters.key_at(i);
        match x.parameters.value_at(i) {
            Some(q) => {
                if !keeps(tokens, k.as_str()) {
                    let ghost d = dropped_values(ps.subrange(0, i as int), toks);
                    assert(d.push((k@, ExprV::Num(q.value))).drop_last() =~= d);
                    out.insert(k.clone(), Expr::Num(q.value));
                }
            },
            None => {},
        }
        i += 1;
    }
    assert(ps.subrange(0, ps.len() as int) =~= ps);
    let ghost first = out.deep_view();

    let ghost cs = constant_values(x@.constants);
    let mut i: usize = 0;
    assert(cs.subrange(0, 0) =~= Seq::<(Seq<char>, ExprV)>::empty());
    while i < x.constants.len()
        invariant
            i <= x.constants.entries@.len(),
            cs == constant_values(x@.constants),
            out.deep_view() == put_all(first, cs.subrange(0, i as int)),
        decreases x.constants.entries@.len() - i,
    {
        assert(cs.subrange(0, i + 1).drop_last() =~= cs.subrange(0, i as int));
        let k = x.constants.key_at(i);
        let q = x.constants.value_at(i);
        assert(cs.subrange(0, i + 1).last() == (k@, ExprV::Num(q.value)));
        out.insert(k.clone(), Expr::Num(q.value));
        i += 1;
    }
    assert(cs.subrange(0, cs.len() as int) =~= cs);
    let ghost second = out.deep_view();

    let ghost vs = vars.deep_view();
    let mut i: usize = 0;
    assert(vs.subrange(0, 0) =~= Seq::<VariableV>::empty());
    while i < vars.len()
        invariant
            i <= vars.len(),
            vs == vars.deep_view(),
            out.deep_view() == put_all(second, trivial_values(vs.subrange(0, i as int))),
        decreases vars.len() - i,
    {
        assert(vs.subrange(0, i + 1).drop_last() =~= vs.subrange(0, i as int));
        assert(vs.subrange(0, i + 1).last() == vars@[i as int]@);
        let v = &vars[i];
        match &v.kind {
            VarKind::Derived(cs, Some(k)) => {
                proof {
                    k.lemma_model();
                }
                let plain = match k {
                    Expr::Num(_) => true,
                    Expr::Var(_) => true,
                    _ => false,
                };
                if cs.len() == 0 && plain {
                    let ghost d = trivial_values(vs.subrange(0, i as int));
                    assert(d.push((v.name@, k@)).drop_last() =~= d);
                    out.insert(v.name.clone(), k.dup());
                }
            },
            _ => {},
        }
        i += 1;
    }
    assert(vs.subrange(0, vs.len() as int) =~= vs);
    out
}

/// The variables after one round with `table`.
pub fn step(vars: &Vec<Variable>, table: &Dict<Expr>) -> (r: Vec<Variable>)
    ensures
        r.deep_view() == stepped(vars.deep_view(), table.deep_view()),
{
    let mut out: Vec<Variable> = Vec::new();
    let mut i: usize = 0;
    let ghost want = stepped(vars.deep_view(), table.deep_view());
    while i < vars.len()
        invariant
            i <= vars.len(),
            out@.len() == i,
            want == stepped(vars.deep_view(), table.deep_view()),
            forall|j: int| 0 <= j < i ==> (#[trigger] out@[j])@ == want[j],
        decreases vars.len() - i,
    {
        let v = &vars[i];
        assert(vars.deep_view()[i as int] == v@);
        out.push(
            Variable {
                name: v.name.clone(),
                exposure: dup_name(&v.exposure),
                dimension: v.dimension.clone(),
                kind: v.kind.propagate(table),
            },
        );
        i += 1;
    }
    assert(out.deep_view() =~= want);
    out
}

/// Whether the two lists hold the same variables in the same order.
pub fn same_variables(a: &Vec<Variable>, b: &Vec<Variable>) -> (r: bool)
    ensures
        r == (a.deep_view() == b.deep_view()),
{
    if a.len() != b.len() {
        assert(a.deep_view().len() != b.deep_view().len());
        return false;
    }
    let mut i: usize = 0;
    while i < a.len()
        invariant
            i <= a.len(),
            a.len() == b.len(),
            forall|j: int| 0 <= j < i ==> a@[j]@ == b@[j]@,
        decreases a.len() - i,
    {
        if !a[i].equals(&b[i]) {
            assert(a.deep_view()[i as int] != b.deep_view()[i as int]);
            return false;
        }
        i += 1;
    }
    assert(a.deep_view() =~= b.deep_view());
    true
}

fn dup_transitions(v: &Vec<(String, String, String, String)>) -> (r: Vec<
    (String, String, String, String),
>)
    ensures
        r.deep_view() == v.deep_view(),
{
    let mut out: Vec<(String, String, String, String)> = Vec::new();
    let mut i: usize = 0;
    while i < v.len()
        invariant
            i <= v.len(),
            out@.len() == i,
            forall|j: int|
                0 <= j < i ==> (#[trigger] out@[j]).deep_view() == v@[j].deep_view(),
        decreases v.len() - i,
    {
        out.push((v[i].0.clone(), v[i].1.clone(), v[i].2.clone(), v[i].3.clone()));
        i += 1;
    }
    assert(out.deep_view() =~= v.deep_view());
    out
}

impl Collapsed {
    /// The flat form simplified under `filter`, a list of tokens between
    /// commas. A token `+name` keeps the parameter `name` and `-name` drops
    /// it; `+stem*` and `-stem*` do so for every parameter whose name starts
    /// with `stem`; a later token overrules an earlier one. The value of a
    /// parameter that is dropped, the value of a constant, and what a
    /// variable stands for that is nothing but a literal or another name, is
    /// put in place of every reference to it, and every expression is
    /// tidied, round after round until nothing changes. A token without a
    /// sign makes the filter bad.
    pub fn simplify(&self, filter: &str) -> (r: Result<Self, Error>)
        ensures
            match r {
                Ok(c) => well_signed(split(filter@, ',')) && c@ == simplified_form(
                    self@,
                    split(filter@, ','),
                ) && (self.wf() ==> c.wf()),
                Err(e) => !well_signed(split(filter@, ',')) && e == Error::BadFilter,
            },
    {
        let tokens = split_on(filter, ',');
        if !all_signed(&tokens) {
            return Err(Error::BadFilter);
        }
        proof {
            if self.wf() {
                crate::keys::lemma_simplified_well_formed(self@, split(filter@, ','));
            }
        }
        let ghost toks = split(filter@, ',');
        let mut vars = dup_variables(&self.variables);
        let mut left: u64 = ROUNDS;
        loop
            invariant
                toks == views(tokens@),
                settled(self@, toks, self@.variables, ROUNDS as nat) == settled(
                    self@,
                    toks,
                    vars.deep_view(),
                    left as nat,
                ),
            ensures
                settled(self@, toks, self@.variables, ROUNDS as nat) == vars.deep_view(),
            decreases left,
        {
            if left == 0 {
                break;
            }
            let t = table(self, &tokens, &vars);
            let next = step(&vars, &t);
            if same_variables(&next, &vars) {
                break;
            }
            vars = next;
            left -= 1;
        }
        let constants: Dict<Quantity> = Dict::new();
        Ok(
            Collapsed {
                name: dup_name(&self.name),
                exposures: dup_texts(&self.exposures),
                variables: vars,
                constants,
                parameters: keep_parameters(&self.parameters, &tokens),
                attributes: dup_optional_texts(&self.attributes),
                events: dup_events(&self.events),
                kinetic: dup_kinetic(&self.kinetic),
                transitions: dup_transitions(&self.transitions),
            },
        )
    }
}

} // verus!

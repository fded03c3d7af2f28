use vstd::prelude::*;
use crate::boolean::{simplified_bool, substituted_bool, Boolean, BooleanV};
use crate::dict::Dict;
use crate::expr::{simplified, substituted, Expr, ExprV};
use crate::path::{Match, PathV};
use crate::text::same;

verus! {

/// How the values that a selection finds become one value.
#[derive(Clone, Copy, Debug, PartialEq, Eq, Structural)]
pub enum SelectBy {
    /// There is exactly one, and it is taken.
    Get,
    /// They are multiplied.
    Product,
    /// They are added.
    Sum,
}

/// What a variable is, and how its value comes about.
#[derive(Debug, PartialEq)]
pub enum VarKind {
    /// Gathered from the exposures that lie on a pattern.
    Select(SelectBy, Match),
    /// Given piecewise: the expression of the first case whose condition
    /// holds, else the default.
    Derived(Vec<(Boolean, Expr)>, Option<Expr>),
    /// A state, with its initial value and its derivative with respect to time.
    State(Option<Expr>, Option<Expr>),
}

pub enum VarKindV {
    Select(SelectBy, Seq<PathV>),
    Derived(Seq<(BooleanV, ExprV)>, Option<ExprV>),
    State(Option<ExprV>, Option<ExprV>),
}

impl Clone for VarKind {
    fn clone(&self) -> (r: Self)
        ensures
            r@ == self@,
    {
        self.dup()
    }
}

impl DeepView for VarKind {
    type V = VarKindV;

    open spec fn deep_view(&self) -> VarKindV {
        match self {
            VarKind::Select(by, m) => VarKindV::Select(*by, m@),
            VarKind::Derived(cs, df) => VarKindV::Derived(cs.deep_view(), df.deep_view()),
            VarKind::State(i, d) => VarKindV::State(i.deep_view(), d.deep_view()),
        }
    }
}

impl View for VarKind {
    type V = VarKindV;

    open spec fn view(&self) -> VarKindV {
        self.deep_view()
    }
}

/// A named variable of a component.
#[derive(Debug, PartialEq)]
pub struct Variable {
    pub name: String,
    pub exposure: Option<String>,
    pub dimension: String,
    pub kind: VarKind,
}

pub struct VariableV {
    pub name: Seq<char>,
    pub exposure: Option<Seq<char>>,
    pub dimension: Seq<char>,
    pub kind: VarKindV,
}

impl Clone for Variable {
    fn clone(&self) -> (r: Self)
        ensures
            r@ == self@,
    {
        self.dup()
    }
}

impl DeepView for Variable {
    type V = VariableV;

    open spec fn deep_view(&self) -> VariableV {
        VariableV {
            name: self.name@,
            exposure: self.exposure.deep_view(),
            dimension: self.dimension@,
            kind: self.kind@,
        }
    }
}

impl View for Variable {
    type V = VariableV;

    open spec fn view(&self) -> VariableV {
        self.deep_view()
    }
}

/// `e` after the table has been applied and the result tidied.
pub open spec fn propagated(e: ExprV, table: Seq<(Seq<char>, ExprV)>) -> ExprV {
    simplified(substituted(e, table))
}

pub open spec fn propagated_opt(e: Option<ExprV>, table: Seq<(Seq<char>, ExprV)>) -> Option<ExprV> {
    match e {
        Some(x) => Some(propagated(x, table)),
        None => None,
    }
}

pub open spec fn propagated_cases(
    cs: Seq<(BooleanV, ExprV)>,
    table: Seq<(Seq<char>, ExprV)>,
) -> Seq<(BooleanV, ExprV)> {
    Seq::new(
        cs.len(),
        |i: int| (simplified_bool(substituted_bool(cs[i].0, table)), propagated(cs[i].1, table)),
    )
}

/// The kind after the table has been applied to each of its expressions and
/// conditions and the results tidied. A selection is left as it is.
pub open spec fn propagated_kind(k: VarKindV, table: Seq<(Seq<char>, ExprV)>) -> VarKindV {
    match k {
        VarKindV::Select(_, _) => k,
        VarKindV::Derived(cs, df) => VarKindV::Derived(
            propagated_cases(cs, table),
            propagated_opt(df, table),
        ),
        VarKindV::State(i, d) => VarKindV::State(
            propagated_opt(i, table),
            propagated_opt(d, table),
        ),
    }
}

/// A copy of an expression that may be absent.
pub fn dup_opt(e: &Option<Expr>) -> (r: Option<Expr>)
    ensures
        r.deep_view() == e.deep_view(),
{
    match e {
        Some(x) => Some(x.dup()),
        None => None,
    }
}

/// Whether two expressions that may be absent are the same.
pub fn equals_opt(a: &Option<Expr>, b: &Option<Expr>) -> (r: bool)
    ensures
        r == (a.deep_view() == b.deep_view()),
{
    match (a, b) {
        (Some(x), Some(y)) => x.equals(y),
        (None, None) => true,
        _ => false,
    }
}

/// A copy of a name that may be absent.
pub fn dup_name(s: &Option<String>) -> (r: Option<String>)
    ensures
        r.deep_view() == s.deep_view(),
{
    match s {
        Some(x) => Some(x.clone()),
        None => None,
    }
}

/// Whether two names that may be absent are the same.
pub fn equals_name(a: &Option<String>, b: &Option<String>) -> (r: bool)
    ensures
        r == (a.deep_view() == b.deep_view()),
{
    match (a, b) {
        (Some(x), Some(y)) => same(x.as_str(), y.as_str()),
        (None, None) => true,
        _ => false,
    }
}

fn propagate_opt(e: &Option<Expr>, table: &Dict<Expr>) -> (r: Option<Expr>)
    ensures
        r.deep_view() == propagated_opt(e.deep_view(), table.deep_view()),
{
    match e {
        Some(x) => Some(x.substitute(table).simplify()),
        None => None,
    }
}

fn dup_cases(cs: &Vec<(Boolean, Expr)>) -> (r: Vec<(Boolean, Expr)>)
    ensures
        r.deep_view() == cs.deep_view(),
{
    let mut out: Vec<(Boolean, Expr)> = Vec::new();
    let mut i: usize = 0;
    while i < cs.len()
        invariant
            i <= cs.len(),
            out@.len() == i,
            forall|j: int| 0 <= j < i ==> out@[j].deep_view() == cs@[j].deep_view(),
        decreases cs.len() - i,
    {
        out.push((cs[i].0.dup(), cs[i].1.dup()));
        i += 1;
    }
    assert(out.deep_view() =~= cs.deep_view());
    out
}

fn equals_cases(cs: &Vec<(Boolean, Expr)>, ds: &Vec<(Boolean, Expr)>) -> (r: bool)
    ensures
        r == (cs.deep_view() == ds.deep_view()),
{
    if cs.len() != ds.len() {
        assert(cs.deep_view().len() != ds.deep_view().len());
        return false;
    }
    let mut i: usize = 0;
    while i < cs.len()
        invariant
            i <= cs.len(),
            cs.len() == ds.len(),
            forall|j: int| 0 <= j < i ==> cs@[j].deep_view() == ds@[j].deep_view(),
        decreases cs.len() - i,
    {
        if !(cs[i].0.equals(&ds[i].0) && cs[i].1.equals(&ds[i].1)) {
            assert(cs.deep_view()[i as int] != ds.deep_view()[i as int]);
            return false;
        }
        i += 1;
    }
    assert(cs.deep_view() =~= ds.deep_view());
    true
}

fn propagate_cases(cs: &Vec<(Boolean, Expr)>, table: &Dict<Expr>) -> (r: Vec<(Boolean, Expr)>)
    ensures
        r.deep_view() == propagated_cases(cs.deep_view(), table.deep_view()),
{
    let mut out: Vec<(Boolean, Expr)> = Vec::new();
    let mut i: usize = 0;
    let ghost want = propagated_cases(cs.deep_view(), table.deep_view());
    while i < cs.len()
        invariant
            i <= cs.len(),
            out@.len() == i,
            want == propagated_cases(cs.deep_view(), table.deep_view()),
            forall|j: int| 0 <= j < i ==> out@[j].deep_view() == want[j],
        decreases cs.len() - i,
    {
        let c = cs[i].0.substitute(table).simplify();
        let e = cs[i].1.substitute(table).simplify();
        assert(cs.deep_view()[i as int] == cs@[i as int].deep_view());
        out.push((c, e));
        i += 1;
    }
    assert(out.deep_view() =~= want);
    out
}

impl VarKind {
    /// A copy.
    pub fn dup(&self) -> (r: VarKind)
        ensures
            r@ == self@,
    {
        match self {
            VarKind::Select(by, m) => VarKind::Select(*by, m.dup()),
            VarKind::Derived(cs, df) => VarKind::Derived(dup_cases(cs), dup_opt(df)),
            VarKind::State(i, d) => VarKind::State(dup_opt(i), dup_opt(d)),
        }
    }

    /// Whether the two kinds are the same.
    pub fn equals(&self, other: &VarKind) -> (r: bool)
        ensures
            r == (self@ == other@),
    {
        match (self, other) {
            (VarKind::Select(a, m), VarKind::Select(b, n)) => *a == *b && m.equals(n),
            (VarKind::Derived(cs, df), VarKind::Derived(ds, dg)) => equals_cases(cs, ds)
                && equals_opt(df, dg),
            (VarKind::State(i, d), VarKind::State(j, e)) => equals_opt(i, j) && equals_opt(d, e),
            _ => false,
        }
    }

    /// The kind after the table has been applied to each of its expressions
    /// and conditions and the results tidied.
    pub fn propagate(&self, table: &Dict<Expr>) -> (r: VarKind)
        ensures
            r@ == propagated_kind(self@, table.deep_view()),
    {
        match self {
            VarKind::Select(by, m) => VarKind::Select(*by, m.dup()),
            VarKind::Derived(cs, df) => VarKind::Derived(
                propagate_cases(cs, table),
                propagate_opt(df, table),
            ),
            VarKind::State(i, d) => VarKind::State(propagate_opt(i, table), propagate_opt(d, table)),
        }
    }
}

impl Variable {
    pub fn new(name: &str, exposure: &Option<String>, dimension: &str, kind: &VarKind) -> (r:
        Variable)
        ensures
            r@ == (VariableV {
                name: name@,
                exposure: exposure.deep_view(),
                dimension: dimension@,
                kind: kind@,
            }),
    {
        Variable {
            name: name.to_owned(),
            exposure: dup_name(exposure),
            dimension: dimension.to_owned(),
            kind: kind.dup(),
        }
    }

    /// A copy.
    pub fn dup(&self) -> (r: Variable)
        ensures
            r@ == self@,
    {
        Variable {
            name: self.name.clone(),
            exposure: dup_name(&self.exposure),
            dimension: self.dimension.clone(),
            kind: self.kind.dup(),
        }
    }

    /// Whether the two variables are the same.
    pub fn equals(&self, other: &Variable) -> (r: bool)
        ensures
            r == (self@ == other@),
    {
        same(self.name.as_str(), other.name.as_str()) && equals_name(
            &self.exposure,
            &other.exposure,
        ) && same(self.dimension.as_str(), other.dimension.as_str()) && self.kind.equals(
            &other.kind,
        )
    }
}

/// Copies of the variables.
pub fn dup_variables(vars: &Vec<Variable>) -> (r: Vec<Variable>)
    ensures
        r.deep_view() == vars.deep_view(),
{
    let mut out: Vec<Variable> = Vec::new();
    let mut i: usize = 0;
    while i < vars.len()
        invariant
            i <= vars.len(),
            out@.len() == i,
            forall|j: int| 0 <= j < i ==> (#[trigger] out@[j])@ == vars@[j]@,
        decreases vars.len() - i,
    {
        out.push(vars[i].dup());
        i += 1;
    }
    assert(out.deep_view() =~= vars.deep_view());
    out
}

} // verus!

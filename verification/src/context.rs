use vstd::prelude::*;
use vstd::std_specs::vec::axiom_vec_index_decreases;
use crate::boolean::{Boolean, BooleanV};
use crate::expr::{models, Expr, ExprV};
use crate::path::prefixed;
use crate::text::{contains, join, join_with, views};
use crate::variable::{VarKind, VarKindV};

verus! {

/// The frames of a context: each a label and the names declared under it.
pub type Frames = Seq<(Seq<char>, Seq<Seq<char>>)>;

/// Those of `parts` that are not empty, in order.
pub open spec fn nonempty(parts: Seq<Seq<char>>) -> Seq<Seq<char>>
    decreases parts.len(),
{
    if parts.len() == 0 {
        Seq::empty()
    } else if parts.last().len() > 0 {
        nonempty(parts.drop_last()).push(parts.last())
    } else {
        nonempty(parts.drop_last())
    }
}

/// The labels of the frames, outermost first.
pub open spec fn frame_labels(frames: Frames) -> Seq<Seq<char>> {
    Seq::new(frames.len(), |i: int| frames[i].0)
}

/// The labels that make up the prefix of a name declared in the innermost
/// frame: those of the frames that have one, outermost first.
pub open spec fn scope(frames: Frames) -> Seq<Seq<char>> {
    nonempty(frame_labels(frames))
}

/// The flat name of `name` declared in the innermost frame: the labels of the
/// scope and the name, joined by `_`.
pub open spec fn qualified(frames: Frames, name: Seq<char>) -> Seq<char> {
    join(scope(frames).push(name), "_"@)
}

/// The innermost frame that declares `name`.
pub open spec fn defining(frames: Frames, name: Seq<char>) -> Option<int>
    decreases frames.len(),
{
    if frames.len() == 0 {
        None
    } else if frames.last().1.contains(name) {
        Some(frames.len() - 1)
    } else {
        defining(frames.drop_last(), name)
    }
}

/// The flat name that a reference to `name` means: the name qualified by the
/// labels down to the innermost frame that declares it, or the name as it is
/// where no frame does.
pub open spec fn renamed(frames: Frames, name: Seq<char>) -> Seq<char> {
    match defining(frames, name) {
        None => name,
        Some(d) => join(nonempty(frame_labels(frames.subrange(0, d + 1)).push(name)), "_"@),
    }
}

/// `e` with every reference renamed.
pub open spec fn renamed_expr(frames: Frames, e: ExprV) -> ExprV
    decreases e,
{
    match e {
        ExprV::Num(_) => e,
        ExprV::Var(n) => ExprV::Var(renamed(frames, n)),
        ExprV::Add(xs) => ExprV::Add(
            Seq::new(
                xs.len(),
                |i: int|
                    if 0 <= i < xs.len() {
                        renamed_expr(frames, xs[i])
                    } else {
                        arbitrary()
                    },
            ),
        ),
        ExprV::Mul(xs) => ExprV::Mul(
            Seq::new(
                xs.len(),
                |i: int|
                    if 0 <= i < xs.len() {
                        renamed_expr(frames, xs[i])
                    } else {
                        arbitrary()
                    },
            ),
        ),
        ExprV::Pow(xs) => ExprV::Pow(
            Seq::new(
                xs.len(),
                |i: int|
                    if 0 <= i < xs.len() {
                        renamed_expr(frames, xs[i])
                    } else {
                        arbitrary()
                    },
            ),
        ),
        ExprV::Fun(f, xs) => ExprV::Fun(
            f,
            Seq::new(
                xs.len(),
                |i: int|
                    if 0 <= i < xs.len() {
                        renamed_expr(frames, xs[i])
                    } else {
                        arbitrary()
                    },
            ),
        ),
    }
}

/// Each of `xs` with every reference renamed.
pub open spec fn renamed_all(frames: Frames, xs: Seq<ExprV>) -> Seq<ExprV> {
    Seq::new(xs.len(), |i: int| renamed_expr(frames, xs[i]))
}

/// Renaming goes through a composite expression operand by operand.
pub proof fn lemma_renamed_expr(frames: Frames, e: ExprV)
    ensures
        renamed_expr(frames, e) == match e {
            ExprV::Num(_) => e,
            ExprV::Var(n) => ExprV::Var(renamed(frames, n)),
            ExprV::Add(xs) => ExprV::Add(renamed_all(frames, xs)),
            ExprV::Mul(xs) => ExprV::Mul(renamed_all(frames, xs)),
            ExprV::Pow(xs) => ExprV::Pow(renamed_all(frames, xs)),
            ExprV::Fun(f, xs) => ExprV::Fun(f, renamed_all(frames, xs)),
        },
{
    match e {
        ExprV::Add(xs) => {
            assert(renamed_expr(frames, e)->Add_0 =~= renamed_all(frames, xs));
        },
        ExprV::Mul(xs) => {
            assert(renamed_expr(frames, e)->Mul_0 =~= renamed_all(frames, xs));
        },
        ExprV::Pow(xs) => {
            assert(renamed_expr(frames, e)->Pow_0 =~= renamed_all(frames, xs));
        },
        ExprV::Fun(f, xs) => {
            assert(renamed_expr(frames, e)->Fun_1 =~= renamed_all(frames, xs));
        },
        _ => {},
    }
}

/// `b` with every reference renamed.
pub open spec fn renamed_bool(frames: Frames, b: BooleanV) -> BooleanV
    decreases b,
{
    match b {
        BooleanV::Lit(_) => b,
        BooleanV::Test(r, x, y) => BooleanV::Test(
            r,
            renamed_expr(frames, x),
            renamed_expr(frames, y),
        ),
        BooleanV::And(p, q) => BooleanV::And(
            Box::new(renamed_bool(frames, *p)),
            Box::new(renamed_bool(frames, *q)),
        ),
        BooleanV::Or(p, q) => BooleanV::Or(
            Box::new(renamed_bool(frames, *p)),
            Box::new(renamed_bool(frames, *q)),
        ),
    }
}

pub open spec fn renamed_opt(frames: Frames, e: Option<ExprV>) -> Option<ExprV> {
    match e {
        Some(x) => Some(renamed_expr(frames, x)),
        None => None,
    }
}

pub open spec fn renamed_cases(frames: Frames, cs: Seq<(BooleanV, ExprV)>) -> Seq<
    (BooleanV, ExprV),
> {
    Seq::new(cs.len(), |i: int| (renamed_bool(frames, cs[i].0), renamed_expr(frames, cs[i].1)))
}

/// The kind as it reads in the flat namespace: the pattern of a selection
/// starts at the root, and every reference in an expression or a condition
/// is renamed.
pub open spec fn renamed_kind(frames: Frames, k: VarKindV) -> VarKindV {
    match k {
        VarKindV::Select(by, ps) => VarKindV::Select(by, prefixed(scope(frames), ps)),
        VarKindV::Derived(cs, df) => VarKindV::Derived(
            renamed_cases(frames, cs),
            renamed_opt(frames, df),
        ),
        VarKindV::State(i, d) => VarKindV::State(renamed_opt(frames, i), renamed_opt(frames, d)),
    }
}

/// The stack of scopes that are open at a place in the tree of components.
/// Each frame has a label and the names declared there. A frame with the empty
/// label takes part in renaming and adds nothing to a prefix.
#[derive(Debug, PartialEq)]
pub struct Context(pub Vec<(String, Vec<String>)>);

impl Clone for Context {
    fn clone(&self) -> (r: Self)
        ensures
            r@ == self@,
    {
        self.dup()
    }
}

impl DeepView for Context {
    type V = Frames;

    open spec fn deep_view(&self) -> Frames {
        Seq::new(self.0@.len(), |i: int| (self.0@[i].0@, views(self.0@[i].1@)))
    }
}

impl View for Context {
    type V = Frames;

    open spec fn view(&self) -> Frames {
        self.deep_view()
    }
}

/// Copies of the names in `v`.
pub fn dup_names(v: &Vec<String>) -> (r: Vec<String>)
    ensures
        views(r@) == views(v@),
{
    let mut out: Vec<String> = Vec::new();
    let mut i: usize = 0;
    while i < v.len()
        invariant
            i <= v.len(),
            out@.len() == i,
            forall|j: int| 0 <= j < i ==> out@[j]@ == v@[j]@,
        decreases v.len() - i,
    {
        out.push(v[i].clone());
        i += 1;
    }
    assert(views(out@) =~= views(v@));
    out
}

impl Context {
    /// The context in which no scope is open.
    pub fn new() -> (r: Self)
        ensures
            r@ == Seq::<(Seq<char>, Seq<Seq<char>>)>::empty(),
    {
        let r = Context(Vec::new());
        assert(r@ =~= Seq::<(Seq<char>, Seq<Seq<char>>)>::empty());
        r
    }

    /// A copy.
    pub fn dup(&self) -> (r: Self)
        ensures
            r@ == self@,
    {
        let mut out: Vec<(String, Vec<String>)> = Vec::new();
        let mut i: usize = 0;
        while i < self.0.len()
            invariant
                i <= self.0@.len(),
                out@.len() == i,
                forall|j: int|
                    0 <= j < i ==> out@[j].0@ == self.0@[j].0@ && views(out@[j].1@) == views(
                        self.0@[j].1@,
                    ),
            decreases self.0@.len() - i,
        {
            out.push((self.0[i].0.clone(), dup_names(&self.0[i].1)));
            i += 1;
        }
        let r = Context(out);
        assert(r@ =~= self@);
        r
    }

    /// Opens a scope with the label `name` in which `vars` are declared.
    pub fn enter(&mut self, name: &str, vars: &Vec<String>)
        ensures
            final(self)@ == old(self)@.push((name@, views(vars@))),
    {
        self.0.push((name.to_owned(), dup_names(vars)));
        assert(self@ =~= old(self)@.push((name@, views(vars@))));
    }

    /// Closes the innermost scope, if one is open.
    pub fn exit(&mut self)
        ensures
            final(self)@ == (if old(self)@.len() > 0 {
                old(self)@.drop_last()
            } else {
                old(self)@
            }),
    {
        let _ = self.0.pop();
        assert(self@ =~= (if old(self)@.len() > 0 {
            old(self)@.drop_last()
        } else {
            old(self)@
        }));
    }

    /// The labels of the open scopes that have one, outermost first.
    pub fn keys(&self) -> (r: Vec<String>)
        ensures
            views(r@) == scope(self@),
    {
        assert(self@.subrange(0, self@.len() as int) =~= self@);
        self.labels_to(self.0.len())
    }

    /// The labels of the `n` outermost scopes that have one.
    fn labels_to(&self, n: usize) -> (r: Vec<String>)
        requires
            n <= self@.len(),
        ensures
            views(r@) == nonempty(frame_labels(self@.subrange(0, n as int))),
    {
        let mut out: Vec<String> = Vec::new();
        let mut i: usize = 0;
        let ghost all = frame_labels(self@);
        assert(all.subrange(0, 0) =~= Seq::<Seq<char>>::empty());
        assert(views(out@) =~= Seq::<Seq<char>>::empty());
        while i < n
            invariant
                i <= n <= self.0@.len(),
                all == frame_labels(self@),
                views(out@) == nonempty(all.subrange(0, i as int)),
            decreases n - i,
        {
            let ghost head = all.subrange(0, i as int);
            let ghost next = all.subrange(0, i + 1);
            let ghost before = views(out@);
            assert(next.drop_last() =~= head);
            assert(next.last() == self.0@[i as int].0@);
            if self.0[i].0.as_str().unicode_len() > 0 {
                out.push(self.0[i].0.clone());
                assert(views(out@) =~= before.push(self.0@[i as int].0@));
            }
            i += 1;
        }
        assert(all.subrange(0, n as int) =~= frame_labels(self@.subrange(0, n as int)));
        out
    }

    /// The flat name of `name` declared in the innermost scope.
    pub fn add_prefix(&self, name: &str) -> (r: String)
        ensures
            r@ == qualified(self@, name@),
    {
        let mut ks = self.keys();
        let ghost before = views(ks@);
        ks.push(name.to_owned());
        assert(views(ks@) =~= before.push(name@));
        join_with(&ks, "_")
    }

    /// The innermost scope that declares `name`.
    fn defining(&self, name: &str) -> (r: Option<usize>)
        ensures
            match r {
                Some(d) => defining(self@, name@) == Some(d as int) && d < self@.len(),
                None => defining(self@, name@).is_none(),
            },
    {
        let mut i: usize = self.0.len();
        assert(self@.subrange(0, i as int) =~= self@);
        while i > 0
            invariant
                i <= self.0@.len(),
                defining(self@, name@) == defining(self@.subrange(0, i as int), name@),
            decreases i,
        {
            let ghost cur = self@.subrange(0, i as int);
            assert(cur.last() == self@[i - 1]);
            assert(cur.drop_last() =~= self@.subrange(0, i - 1));
            if contains(&self.0[i - 1].1, name) {
                return Some(i - 1);
            }
            i -= 1;
        }
        None
    }

    /// The flat name that a reference to `name` means here.
    pub fn rename(&self, name: &str) -> (r: String)
        ensures
            r@ == renamed(self@, name@),
    {
        match self.defining(name) {
            None => name.to_owned(),
            Some(d) => {
                let n = self.0.len();
                assert(d < n);
                let mut parts = self.labels_to(d + 1);
                let ghost before = views(parts@);
                let ghost labels = frame_labels(self@.subrange(0, d + 1));
                assert(labels.push(name@).drop_last() =~= labels);
                if name.unicode_len() > 0 {
                    parts.push(name.to_owned());
                    assert(views(parts@) =~= before.push(name@));
                }
                join_with(&parts, "_")
            },
        }
    }

    /// `v` with every reference renamed.
    pub fn rename_expr(&self, v: &Expr) -> (r: Expr)
        ensures
            r@ == renamed_expr(self@, v@),
        decreases v,
    {
        proof {
            v.lemma_model();
            lemma_renamed_expr(self@, v@);
        }
        let r = match v {
            Expr::Num(n) => Expr::Num(*n),
            Expr::Var(s) => Expr::Var(self.rename(s.as_str())),
            Expr::Add(xs) => Expr::Add(self.rename_all(xs)),
            Expr::Mul(xs) => Expr::Mul(self.rename_all(xs)),
            Expr::Pow(xs) => Expr::Pow(self.rename_all(xs)),
            Expr::Fun(f, xs) => Expr::Fun(f.clone(), self.rename_all(xs)),
        };
        proof {
            r.lemma_model();
        }
        r
    }

    /// Each of `xs` with every reference renamed.
    pub fn rename_all(&self, xs: &Vec<Expr>) -> (r: Vec<Expr>)
        ensures
            models(r@) == renamed_all(self@, models(xs@)),
        decreases xs,
    {
        let mut out: Vec<Expr> = Vec::new();
        let mut i: usize = 0;
        while i < xs.len()
            invariant
                i <= xs.len(),
                out@.len() == i,
                forall|j: int| 0 <= j < i ==> out@[j]@ == renamed_expr(self@, xs@[j]@),
            decreases xs.len() - i,
        {
            proof {
                axiom_vec_index_decreases(*xs, i as int);
            }
            out.push(self.rename_expr(&xs[i]));
            i += 1;
        }
        assert(models(out@) =~= renamed_all(self@, models(xs@)));
        out
    }

    /// `v` with every reference renamed.
    pub fn rename_bool(&self, v: &Boolean) -> (r: Boolean)
        ensures
            r@ == renamed_bool(self@, v@),
        decreases v,
    {
        match v {
            Boolean::Lit(b) => Boolean::Lit(*b),
            Boolean::Test(r, a, b) => Boolean::Test(*r, self.rename_expr(a), self.rename_expr(b)),
            Boolean::And(a, b) => Boolean::And(
                Box::new(self.rename_bool(a)),
                Box::new(self.rename_bool(b)),
            ),
            Boolean::Or(a, b) => Boolean::Or(
                Box::new(self.rename_bool(a)),
                Box::new(self.rename_bool(b)),
            ),
        }
    }

    fn rename_opt(&self, e: &Option<Expr>) -> (r: Option<Expr>)
        ensures
            r.deep_view() == renamed_opt(self@, e.deep_view()),
    {
        match e {
            Some(x) => Some(self.rename_expr(x)),
            None => None,
        }
    }

    fn rename_cases(&self, cs: &Vec<(Boolean, Expr)>) -> (r: Vec<(Boolean, Expr)>)
        ensures
            r.deep_view() == renamed_cases(self@, cs.deep_view()),
    {
        let mut out: Vec<(Boolean, Expr)> = Vec::new();
        let mut i: usize = 0;
        let ghost want = renamed_cases(self@, cs.deep_view());
        while i < cs.len()
            invariant
                i <= cs.len(),
                out@.len() == i,
                want == renamed_cases(self@, cs.deep_view()),
                forall|j: int| 0 <= j < i ==> out@[j].deep_view() == want[j],
            decreases cs.len() - i,
        {
            let c = self.rename_bool(&cs[i].0);
            let e = self.rename_expr(&cs[i].1);
            assert(cs.deep_view()[i as int] == cs@[i as int].deep_view());
            out.push((c, e));
            i += 1;
        }
        assert(out.deep_view() =~= want);
        out
    }

    /// The kind as it reads in the flat namespace.
    pub fn rename_kind(&self, kind: &VarKind) -> (r: VarKind)
        ensures
            r@ == renamed_kind(self@, kind@),
    {
        match kind {
            VarKind::Select(b, ps) => {
                let pfx = self.keys();
                VarKind::Select(*b, ps.add_prefix(&pfx))
            },
            VarKind::Derived(cs, df) => VarKind::Derived(
                self.rename_cases(cs),
                self.rename_opt(df),
            ),
            VarKind::State(i, d) => VarKind::State(self.rename_opt(i), self.rename_opt(d)),
        }
    }
}

} // verus!

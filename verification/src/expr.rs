use vstd::prelude::*;
use vstd::std_specs::vec::axiom_vec_index_decreases;
use crate::dict::{lookup, Dict};
use crate::text::same;

verus! {

/// The bit pattern of zero.
pub const ZERO_BITS: u64 = 0;

/// The bit pattern of one.
pub const ONE_BITS: u64 = 0x3FF0_0000_0000_0000;

/// The bit pattern of minus one.
pub const MINUS_ONE_BITS: u64 = 0xBFF0_0000_0000_0000;

/// The bit that holds the sign of a number.
pub const SIGN_BIT: u64 = 0x8000_0000_0000_0000;

/// A number, held as the bit pattern of its binary64 value. The library moves
/// numbers about and tells zero and one from the rest; it does no arithmetic.
#[derive(Clone, Copy, Debug, PartialEq, Eq, Structural)]
pub struct Number {
    pub bits: u64,
}

impl DeepView for Number {
    type V = Number;

    open spec fn deep_view(&self) -> Number {
        *self
    }
}

impl Number {
    pub fn from_bits(bits: u64) -> (r: Self)
        ensures
            r.bits == bits,
    {
        Number { bits }
    }

    pub fn zero() -> (r: Self)
        ensures
            r.bits == ZERO_BITS,
    {
        Number { bits: ZERO_BITS }
    }

    pub fn one() -> (r: Self)
        ensures
            r.bits == ONE_BITS,
    {
        Number { bits: ONE_BITS }
    }

    /// The number with its sign turned.
    pub fn negated(&self) -> (r: Self)
        ensures
            r.bits == self.bits ^ SIGN_BIT,
    {
        Number { bits: self.bits ^ SIGN_BIT }
    }

    pub fn minus_one() -> (r: Self)
        ensures
            r.bits == MINUS_ONE_BITS,
    {
        Number { bits: MINUS_ONE_BITS }
    }
}

/// A value with the unit it was written in, if any.
#[derive(Debug, PartialEq)]
pub struct Quantity {
    pub value: Number,
    pub unit: Option<String>,
}

pub struct QuantityV {
    pub value: Number,
    pub unit: Option<Seq<char>>,
}

impl Clone for Quantity {
    fn clone(&self) -> (r: Self)
        ensures
            r@ == self@,
    {
        self.dup()
    }
}

impl DeepView for Quantity {
    type V = QuantityV;

    open spec fn deep_view(&self) -> QuantityV {
        QuantityV { value: self.value, unit: self.unit.deep_view() }
    }
}

impl View for Quantity {
    type V = QuantityV;

    open spec fn view(&self) -> QuantityV {
        self.deep_view()
    }
}

impl Quantity {
    pub fn dup(&self) -> (r: Self)
        ensures
            r@ == self@,
    {
        Quantity {
            value: self.value,
            unit: match &self.unit {
                Some(u) => Some(u.clone()),
                None => None,
            },
        }
    }

    pub fn equals(&self, other: &Quantity) -> (r: bool)
        ensures
            r == (self@ == other@),
    {
        self.value.bits == other.value.bits && match (&self.unit, &other.unit) {
            (Some(a), Some(b)) => same(a.as_str(), b.as_str()),
            (None, None) => true,
            _ => false,
        }
    }
}

/// An arithmetic expression.
#[derive(Debug, PartialEq)]
pub enum Expr {
    /// A literal.
    Num(Number),
    /// A reference to a symbol.
    Var(String),
    /// The sum of the terms.
    Add(Vec<Expr>),
    /// The product of the factors.
    Mul(Vec<Expr>),
    /// The first operand raised to the others in turn.
    Pow(Vec<Expr>),
    /// A named function of its arguments.
    Fun(String, Vec<Expr>),
}

pub enum ExprV {
    Num(Number),
    Var(Seq<char>),
    Add(Seq<ExprV>),
    Mul(Seq<ExprV>),
    Pow(Seq<ExprV>),
    Fun(Seq<char>, Seq<ExprV>),
}

/// The models of a list of expressions.
pub open spec fn models(xs: Seq<Expr>) -> Seq<ExprV> {
    Seq::new(xs.len(), |i: int| xs[i].model())
}

impl Expr {
    pub open spec fn model(&self) -> ExprV
        decreases self,
    {
        match self {
            Expr::Num(n) => ExprV::Num(*n),
            Expr::Var(s) => ExprV::Var(s@),
            Expr::Add(xs) => ExprV::Add(
                Seq::new(
                    xs.len() as nat,
                    |i: int|
                        if 0 <= i < xs.len() {
                            xs[i].model()
                        } else {
                            arbitrary()
                        },
                ),
            ),
            Expr::Mul(xs) => ExprV::Mul(
                Seq::new(
                    xs.len() as nat,
                    |i: int|
                        if 0 <= i < xs.len() {
                            xs[i].model()
                        } else {
                            arbitrary()
                        },
                ),
            ),
            Expr::Pow(xs) => ExprV::Pow(
                Seq::new(
                    xs.len() as nat,
                    |i: int|
                        if 0 <= i < xs.len() {
                            xs[i].model()
                        } else {
                            arbitrary()
                        },
                ),
            ),
            Expr::Fun(f, xs) => ExprV::Fun(
                f@,
                Seq::new(
                    xs.len() as nat,
                    |i: int|
                        if 0 <= i < xs.len() {
                            xs[i].model()
                        } else {
                            arbitrary()
                        },
                ),
            ),
        }
    }

    /// The model of a composite expression holds the models of its operands.
    pub proof fn lemma_model(&self)
        ensures
            match self {
                Expr::Num(n) => self@ == ExprV::Num(*n),
                Expr::Var(s) => self@ == ExprV::Var(s@),
                Expr::Add(xs) => self@ == ExprV::Add(models(xs@)),
                Expr::Mul(xs) => self@ == ExprV::Mul(models(xs@)),
                Expr::Pow(xs) => self@ == ExprV::Pow(models(xs@)),
                Expr::Fun(f, xs) => self@ == ExprV::Fun(f@, models(xs@)),
            },
    {
        match self {
            Expr::Num(n) => {},
            Expr::Var(s) => {},
            Expr::Add(xs) => {
                assert(self.model()->Add_0 =~= models(xs@));
            },
            Expr::Mul(xs) => {
                assert(self.model()->Mul_0 =~= models(xs@));
            },
            Expr::Pow(xs) => {
                assert(self.model()->Pow_0 =~= models(xs@));
            },
            Expr::Fun(f, xs) => {
                assert(self.model()->Fun_1 =~= models(xs@));
            },
        }
    }
}

impl Clone for Expr {
    fn clone(&self) -> (r: Self)
        ensures
            r@ == self@,
    {
        self.dup()
    }
}

impl DeepView for Expr {
    type V = ExprV;

    open spec fn deep_view(&self) -> ExprV {
        self.model()
    }
}

impl View for Expr {
    type V = ExprV;

    open spec fn view(&self) -> ExprV {
        self.model()
    }
}

/// `e` with every reference to a name that `table` knows replaced by the
/// expression the table holds for it. What is put in is not looked at again.
pub open spec fn substituted(e: ExprV, table: Seq<(Seq<char>, ExprV)>) -> ExprV
    decreases e,
{
    match e {
        ExprV::Num(_) => e,
        ExprV::Var(n) => match lookup(table, n) {
            Some(x) => x,
            None => e,
        },
        ExprV::Add(xs) => ExprV::Add(
            Seq::new(
                xs.len(),
                |i: int|
                    if 0 <= i < xs.len() {
                        substituted(xs[i], table)
                    } else {
                        arbitrary()
                    },
            ),
        ),
        ExprV::Mul(xs) => ExprV::Mul(
            Seq::new(
                xs.len(),
                |i: int|
                    if 0 <= i < xs.len() {
                        substituted(xs[i], table)
                    } else {
                        arbitrary()
                    },
            ),
        ),
        ExprV::Pow(xs) => ExprV::Pow(
            Seq::new(
                xs.len(),
                |i: int|
                    if 0 <= i < xs.len() {
                        substituted(xs[i], table)
                    } else {
                        arbitrary()
                    },
            ),
        ),
        ExprV::Fun(f, xs) => ExprV::Fun(
            f,
            Seq::new(
                xs.len(),
                |i: int|
                    if 0 <= i < xs.len() {
                        substituted(xs[i], table)
                    } else {
                        arbitrary()
                    },
            ),
        ),
    }
}

/// Whether `e` is the literal zero.
pub open spec fn is_zero(e: ExprV) -> bool {
    e == ExprV::Num(Number { bits: ZERO_BITS })
}

/// Whether `e` is the literal one.
pub open spec fn is_one(e: ExprV) -> bool {
    e == ExprV::Num(Number { bits: ONE_BITS })
}

/// The terms of a sum of `xs`: the terms of each operand that is itself a
/// sum, every other operand but zero, in order.
pub open spec fn terms(xs: Seq<ExprV>) -> Seq<ExprV>
    decreases xs.len(),
{
    if xs.len() == 0 {
        Seq::empty()
    } else {
        let head = terms(xs.drop_last());
        match xs.last() {
            ExprV::Add(ys) => head + ys,
            x => if is_zero(x) {
                head
            } else {
                head.push(x)
            },
        }
    }
}

/// The factors of a product of `xs`: the factors of each operand that is
/// itself a product, every other operand but one, in order.
pub open spec fn factors(xs: Seq<ExprV>) -> Seq<ExprV>
    decreases xs.len(),
{
    if xs.len() == 0 {
        Seq::empty()
    } else {
        let head = factors(xs.drop_last());
        match xs.last() {
            ExprV::Mul(ys) => head + ys,
            x => if is_one(x) {
                head
            } else {
                head.push(x)
            },
        }
    }
}

/// The sum of the terms `ts` in its shortest form.
pub open spec fn sum_of(ts: Seq<ExprV>) -> ExprV {
    if ts.len() == 0 {
        ExprV::Num(Number { bits: ZERO_BITS })
    } else if ts.len() == 1 {
        ts[0]
    } else {
        ExprV::Add(ts)
    }
}

/// The product of the factors `fs` in its shortest form.
pub open spec fn product_of(fs: Seq<ExprV>) -> ExprV {
    if exists|i: int| 0 <= i < fs.len() && is_zero(fs[i]) {
        ExprV::Num(Number { bits: ZERO_BITS })
    } else if fs.len() == 0 {
        ExprV::Num(Number { bits: ONE_BITS })
    } else if fs.len() == 1 {
        fs[0]
    } else {
        ExprV::Mul(fs)
    }
}

/// A sum or a product in its shortest form; anything else as it is.
pub open spec fn tidy(e: ExprV) -> ExprV {
    match e {
        ExprV::Add(xs) => sum_of(terms(xs)),
        ExprV::Mul(xs) => product_of(factors(xs)),
        _ => e,
    }
}

/// `e` with each of its operands tidied.
pub open spec fn operands_simplified(e: ExprV) -> ExprV
    decreases e, 0nat,
{
    match e {
        ExprV::Num(_) => e,
        ExprV::Var(_) => e,
        ExprV::Add(xs) => ExprV::Add(
            Seq::new(
                xs.len(),
                |i: int|
                    if 0 <= i < xs.len() {
                        simplified(xs[i])
                    } else {
                        arbitrary()
                    },
            ),
        ),
        ExprV::Mul(xs) => ExprV::Mul(
            Seq::new(
                xs.len(),
                |i: int|
                    if 0 <= i < xs.len() {
                        simplified(xs[i])
                    } else {
                        arbitrary()
                    },
            ),
        ),
        ExprV::Pow(xs) => ExprV::Pow(
            Seq::new(
                xs.len(),
                |i: int|
                    if 0 <= i < xs.len() {
                        simplified(xs[i])
                    } else {
                        arbitrary()
                    },
            ),
        ),
        ExprV::Fun(f, xs) => ExprV::Fun(
            f,
            Seq::new(
                xs.len(),
                |i: int|
                    if 0 <= i < xs.len() {
                        simplified(xs[i])
                    } else {
                        arbitrary()
                    },
            ),
        ),
    }
}

/// `e` tidied from the leaves up: sums within sums and products within
/// products are merged, a zero term and a unit factor are dropped, a product
/// with a zero factor is zero, and a sum or product of one operand is that
/// operand. Numbers are not combined.
pub open spec fn simplified(e: ExprV) -> ExprV
    decreases e, 1nat,
{
    tidy(operands_simplified(e))
}

/// Whether `e` refers to `name` anywhere.
pub open spec fn mentions(e: ExprV, name: Seq<char>) -> bool
    decreases e,
{
    match e {
        ExprV::Num(_) => false,
        ExprV::Var(n) => n == name,
        ExprV::Add(xs) => exists|i: int| 0 <= i < xs.len() && mentions(xs[i], name),
        ExprV::Mul(xs) => exists|i: int| 0 <= i < xs.len() && mentions(xs[i], name),
        ExprV::Pow(xs) => exists|i: int| 0 <= i < xs.len() && mentions(xs[i], name),
        ExprV::Fun(_, xs) => exists|i: int| 0 <= i < xs.len() && mentions(xs[i], name),
    }
}

/// Each of `xs` with the table applied.
pub open spec fn substituted_all(xs: Seq<ExprV>, table: Seq<(Seq<char>, ExprV)>) -> Seq<ExprV> {
    Seq::new(xs.len(), |i: int| substituted(xs[i], table))
}

/// Each of `xs` tidied.
pub open spec fn simplified_all(xs: Seq<ExprV>) -> Seq<ExprV> {
    Seq::new(xs.len(), |i: int| simplified(xs[i]))
}

/// Substitution goes through a composite expression operand by operand.
pub proof fn lemma_substituted(e: ExprV, table: Seq<(Seq<char>, ExprV)>)
    ensures
        substituted(e, table) == match e {
            ExprV::Num(_) => e,
            ExprV::Var(n) => match lookup(table, n) {
                Some(x) => x,
                None => e,
            },
            ExprV::Add(xs) => ExprV::Add(substituted_all(xs, table)),
            ExprV::Mul(xs) => ExprV::Mul(substituted_all(xs, table)),
            ExprV::Pow(xs) => ExprV::Pow(substituted_all(xs, table)),
            ExprV::Fun(f, xs) => ExprV::Fun(f, substituted_all(xs, table)),
        },
{
    match e {
        ExprV::Add(xs) => {
            assert(substituted(e, table)->Add_0 =~= substituted_all(xs, table));
        },
        ExprV::Mul(xs) => {
            assert(substituted(e, table)->Mul_0 =~= substituted_all(xs, table));
        },
        ExprV::Pow(xs) => {
            assert(substituted(e, table)->Pow_0 =~= substituted_all(xs, table));
        },
        ExprV::Fun(f, xs) => {
            assert(substituted(e, table)->Fun_1 =~= substituted_all(xs, table));
        },
        _ => {},
    }
}

/// Tidying goes through a composite expression operand by operand.
pub proof fn lemma_simplified(e: ExprV)
    ensures
        simplified(e) == match e {
            ExprV::Num(_) => e,
            ExprV::Var(_) => e,
            ExprV::Add(xs) => sum_of(terms(simplified_all(xs))),
            ExprV::Mul(xs) => product_of(factors(simplified_all(xs))),
            ExprV::Pow(xs) => ExprV::Pow(simplified_all(xs)),
            ExprV::Fun(f, xs) => ExprV::Fun(f, simplified_all(xs)),
        },
{
    match e {
        ExprV::Add(xs) => {
            assert(operands_simplified(e)->Add_0 =~= simplified_all(xs));
        },
        ExprV::Mul(xs) => {
            assert(operands_simplified(e)->Mul_0 =~= simplified_all(xs));
        },
        ExprV::Pow(xs) => {
            assert(operands_simplified(e)->Pow_0 =~= simplified_all(xs));
        },
        ExprV::Fun(f, xs) => {
            assert(operands_simplified(e)->Fun_1 =~= simplified_all(xs));
        },
        _ => {},
    }
}

impl Expr {
    /// A copy.
    pub fn dup(&self) -> (r: Expr)
        ensures
            r@ == self@,
        decreases self,
    {
        proof {
            self.lemma_model();
        }
        let r = match self {
            Expr::Num(n) => Expr::Num(*n),
            Expr::Var(s) => Expr::Var(s.clone()),
            Expr::Add(xs) => Expr::Add(Self::dup_all(xs)),
            Expr::Mul(xs) => Expr::Mul(Self::dup_all(xs)),
            Expr::Pow(xs) => Expr::Pow(Self::dup_all(xs)),
            Expr::Fun(f, xs) => Expr::Fun(f.clone(), Self::dup_all(xs)),
        };
        proof {
            r.lemma_model();
        }
        r
    }

    /// Copies of all of `xs`.
    pub fn dup_all(xs: &Vec<Expr>) -> (r: Vec<Expr>)
        ensures
            models(r@) == models(xs@),
        decreases xs,
    {
        let mut out: Vec<Expr> = Vec::new();
        let mut i: usize = 0;
        while i < xs.len()
            invariant
                i <= xs.len(),
                out@.len() == i,
                forall|j: int| 0 <= j < i ==> out@[j]@ == xs@[j]@,
            decreases xs.len() - i,
        {
            proof {
                axiom_vec_index_decreases(*xs, i as int);
            }
            out.push(xs[i].dup());
            i += 1;
        }
        assert(models(out@) =~= models(xs@));
        out
    }

    /// Whether the two expressions are the same.
    pub fn equals(&self, other: &Expr) -> (r: bool)
        ensures
            r == (self@ == other@),
        decreases self,
    {
        proof {
            self.lemma_model();
            other.lemma_model();
        }
        match (self, other) {
            (Expr::Num(a), Expr::Num(b)) => a.bits == b.bits,
            (Expr::Var(a), Expr::Var(b)) => same(a.as_str(), b.as_str()),
            (Expr::Add(xs), Expr::Add(ys)) => Self::equals_all(xs, ys),
            (Expr::Mul(xs), Expr::Mul(ys)) => Self::equals_all(xs, ys),
            (Expr::Pow(xs), Expr::Pow(ys)) => Self::equals_all(xs, ys),
            (Expr::Fun(f, xs), Expr::Fun(g, ys)) => same(f.as_str(), g.as_str())
                && Self::equals_all(xs, ys),
            _ => false,
        }
    }

    /// Whether the two lists hold the same expressions in the same order.
    pub fn equals_all(xs: &Vec<Expr>, ys: &Vec<Expr>) -> (r: bool)
        ensures
            r == (models(xs@) == models(ys@)),
        decreases xs,
    {
        if xs.len() != ys.len() {
            assert(models(xs@).len() != models(ys@).len());
            return false;
        }
        let mut i: usize = 0;
        while i < xs.len()
            invariant
                i <= xs.len(),
                xs.len() == ys.len(),
                forall|j: int| 0 <= j < i ==> xs@[j]@ == ys@[j]@,
            decreases xs.len() - i,
        {
            proof {
                axiom_vec_index_decreases(*xs, i as int);
            }
            if !xs[i].equals(&ys[i]) {
                assert(models(xs@)[i as int] != models(ys@)[i as int]);
                return false;
            }
            i += 1;
        }
        assert(models(xs@) =~= models(ys@));
        true
    }

    /// The expression with the table applied to its references.
    pub fn substitute(&self, table: &Dict<Expr>) -> (r: Expr)
        ensures
            r@ == substituted(self@, table.deep_view()),
        decreases self,
    {
        proof {
            self.lemma_model();
            lemma_substituted(self@, table.deep_view());
        }
        let r = match self {
            Expr::Num(n) => Expr::Num(*n),
            Expr::Var(s) => match table.get(s.as_str()) {
                Some(x) => x.dup(),
                None => Expr::Var(s.clone()),
            },
            Expr::Add(xs) => Expr::Add(Self::substitute_all(xs, table)),
            Expr::Mul(xs) => Expr::Mul(Self::substitute_all(xs, table)),
            Expr::Pow(xs) => Expr::Pow(Self::substitute_all(xs, table)),
            Expr::Fun(f, xs) => Expr::Fun(f.clone(), Self::substitute_all(xs, table)),
        };
        proof {
            r.lemma_model();
        }
        r
    }

    /// All of `xs` with the table applied.
    pub fn substitute_all(xs: &Vec<Expr>, table: &Dict<Expr>) -> (r: Vec<Expr>)
        ensures
            models(r@) == substituted_all(models(xs@), table.deep_view()),
        decreases xs,
    {
        let mut out: Vec<Expr> = Vec::new();
        let mut i: usize = 0;
        while i < xs.len()
            invariant
                i <= xs.len(),
                out@.len() == i,
                forall|j: int| 0 <= j < i ==> out@[j]@ == substituted(xs@[j]@, table.deep_view()),
            decreases xs.len() - i,
        {
            proof {
                axiom_vec_index_decreases(*xs, i as int);
            }
            out.push(xs[i].substitute(table));
            i += 1;
        }
        assert(models(out@) =~= substituted_all(models(xs@), table.deep_view()));
        out
    }

    /// Whether this is the literal zero.
    pub fn is_zero(&self) -> (r: bool)
        ensures
            r == is_zero(self@),
    {
        proof {
            self.lemma_model();
        }
        match self {
            Expr::Num(n) => n.bits == ZERO_BITS,
            _ => false,
        }
    }

    /// Whether this is the literal one.
    pub fn is_one(&self) -> (r: bool)
        ensures
            r == is_one(self@),
    {
        proof {
            self.lemma_model();
        }
        match self {
            Expr::Num(n) => n.bits == ONE_BITS,
            _ => false,
        }
    }

    /// The expression in its tidy form.
    pub fn simplify(&self) -> (r: Expr)
        ensures
            r@ == simplified(self@),
        decreases self,
    {
        proof {
            self.lemma_model();
            lemma_simplified(self@);
        }
        let r = match self {
            Expr::Num(n) => Expr::Num(*n),
            Expr::Var(s) => Expr::Var(s.clone()),
            Expr::Add(xs) => {
                let ys = Self::simplify_all(xs);
                return Self::sum(Self::collect_terms(&ys));
            },
            Expr::Mul(xs) => {
                let ys = Self::simplify_all(xs);
                return Self::product(Self::collect_factors(&ys));
            },
            Expr::Pow(xs) => Expr::Pow(Self::simplify_all(xs)),
            Expr::Fun(f, xs) => Expr::Fun(f.clone(), Self::simplify_all(xs)),
        };
        proof {
            r.lemma_model();
        }
        r
    }

    /// All of `xs`, each in its tidy form.
    pub fn simplify_all(xs: &Vec<Expr>) -> (r: Vec<Expr>)
        ensures
            models(r@) == simplified_all(models(xs@)),
        decreases xs,
    {
        let mut out: Vec<Expr> = Vec::new();
        let mut i: usize = 0;
        while i < xs.len()
            invariant
                i <= xs.len(),
                out@.len() == i,
                forall|j: int| 0 <= j < i ==> out@[j]@ == simplified(xs@[j]@),
            decreases xs.len() - i,
        {
            proof {
                axiom_vec_index_decreases(*xs, i as int);
            }
            out.push(xs[i].simplify());
            i += 1;
        }
        assert(models(out@) =~= simplified_all(models(xs@)));
        out
    }

    /// The terms of a sum of `xs`.
    pub fn collect_terms(xs: &Vec<Expr>) -> (r: Vec<Expr>)
        ensures
            models(r@) == terms(models(xs@)),
    {
        let mut out: Vec<Expr> = Vec::new();
        let mut i: usize = 0;
        assert(models(xs@).subrange(0, 0) =~= Seq::<ExprV>::empty());
        assert(models(out@) =~= Seq::<ExprV>::empty());
        while i < xs.len()
            invariant
                i <= xs.len(),
                models(out@) == terms(models(xs@).subrange(0, i as int)),
            decreases xs.len() - i,
        {
            let ghost head = models(xs@).subrange(0, i as int);
            let ghost next = models(xs@).subrange(0, i + 1);
            let ghost before = models(out@);
            assert(next.drop_last() =~= head);
            assert(next.last() == xs@[i as int]@);
            proof {
                xs@[i as int].lemma_model();
            }
            match &xs[i] {
                Expr::Add(ys) => {
                    let mut more = Self::dup_all(ys);
                    out.append(&mut more);
                    assert(models(out@) =~= before + models(ys@));
                },
                x => {
                    if !x.is_zero() {
                        out.push(x.dup());
                        assert(models(out@) =~= before.push(x@));
                    }
                },
            }
            i += 1;
        }
        assert(models(xs@).subrange(0, xs.len() as int) =~= models(xs@));
        out
    }

    /// The factors of a product of `xs`.
    pub fn collect_factors(xs: &Vec<Expr>) -> (r: Vec<Expr>)
        ensures
            models(r@) == factors(models(xs@)),
    {
        let mut out: Vec<Expr> = Vec::new();
        let mut i: usize = 0;
        assert(models(xs@).subrange(0, 0) =~= Seq::<ExprV>::empty());
        assert(models(out@) =~= Seq::<ExprV>::empty());
        while i < xs.len()
            invariant
                i <= xs.len(),
                models(out@) == factors(models(xs@).subrange(0, i as int)),
            decreases xs.len() - i,
        {
            let ghost head = models(xs@).subrange(0, i as int);
            let ghost next = models(xs@).subrange(0, i + 1);
            let ghost before = models(out@);
            assert(next.drop_last() =~= head);
            assert(next.last() == xs@[i as int]@);
            proof {
                xs@[i as int].lemma_model();
            }
            match &xs[i] {
                Expr::Mul(ys) => {
                    let mut more = Self::dup_all(ys);
                    out.append(&mut more);
                    assert(models(out@) =~= before + models(ys@));
                },
                x => {
                    if !x.is_one() {
                        out.push(x.dup());
                        assert(models(out@) =~= before.push(x@));
                    }
                },
            }
            i += 1;
        }
        assert(models(xs@).subrange(0, xs.len() as int) =~= models(xs@));
        out
    }

    /// The sum of the terms in its shortest form.
    pub fn sum(ts: Vec<Expr>) -> (r: Expr)
        ensures
            r@ == sum_of(models(ts@)),
    {
        let mut ts = ts;
        if ts.len() == 0 {
            Expr::Num(Number::zero())
        } else if ts.len() == 1 {
            let ghost m = models(ts@);
            let x = ts.pop().unwrap();
            assert(x@ == m[0]);
            x
        } else {
            let r = Expr::Add(ts);
            proof {
                r.lemma_model();
            }
            r
        }
    }

    /// The product of the factors in its shortest form.
    pub fn product(fs: Vec<Expr>) -> (r: Expr)
        ensures
            r@ == product_of(models(fs@)),
    {
        let mut i: usize = 0;
        while i < fs.len()
            invariant
                i <= fs.len(),
                forall|j: int| 0 <= j < i ==> !is_zero(models(fs@)[j]),
            decreases fs.len() - i,
        {
            if fs[i].is_zero() {
                assert(is_zero(models(fs@)[i as int]));
                return Expr::Num(Number::zero());
            }
            i += 1;
        }
        let mut fs = fs;
        if fs.len() == 0 {
            Expr::Num(Number::one())
        } else if fs.len() == 1 {
            let ghost m = models(fs@);
            let x = fs.pop().unwrap();
            assert(x@ == m[0]);
            x
        } else {
            let r = Expr::Mul(fs);
            proof {
                r.lemma_model();
            }
            r
        }
    }
}

} // verus!

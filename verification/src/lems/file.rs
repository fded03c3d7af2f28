use vstd::prelude::*;
use crate::component::{empty_type, with_body};
use crate::dict::{lookup, put, Dict};
use crate::error::Error;
use crate::instance::{ComponentType, ComponentTypeV};
use crate::lems::raw;
use crate::lexicon::{Lexicon, LexiconV};
use crate::text::same;

verus! {

impl DeepView for raw::ComponentType {
    type V = raw::ComponentType;

    open spec fn deep_view(&self) -> raw::ComponentType {
        *self
    }
}

impl DeepView for raw::Unit {
    type V = raw::Unit;

    open spec fn deep_view(&self) -> raw::Unit {
        *self
    }
}

impl DeepView for raw::Dimension {
    type V = raw::Dimension;

    open spec fn deep_view(&self) -> raw::Dimension {
        *self
    }
}

impl DeepView for raw::Constant {
    type V = raw::Constant;

    open spec fn deep_view(&self) -> raw::Constant {
        *self
    }
}

/// The component types by their names, as they are written.
pub type Types = Seq<(Seq<char>, raw::ComponentType)>;

/// A document taken apart: its component types, units, dimensions and
/// constants by their names, and what its numbers mean.
#[derive(Clone, Debug, PartialEq)]
pub struct LemsFile {
    pub types: Dict<raw::ComponentType>,
    pub units: Dict<raw::Unit>,
    pub dimensions: Dict<raw::Dimension>,
    pub constants: Dict<raw::Constant>,
    pub lexicon: Lexicon,
}

pub struct LemsFileV {
    pub types: Types,
    pub units: Seq<(Seq<char>, raw::Unit)>,
    pub dimensions: Seq<(Seq<char>, raw::Dimension)>,
    pub constants: Seq<(Seq<char>, raw::Constant)>,
    pub lexicon: LexiconV,
}

impl DeepView for LemsFile {
    type V = LemsFileV;

    open spec fn deep_view(&self) -> LemsFileV {
        LemsFileV {
            types: self.types.deep_view(),
            units: self.units.deep_view(),
            dimensions: self.dimensions.deep_view(),
            constants: self.constants.deep_view(),
            lexicon: self.lexicon@,
        }
    }
}

impl View for LemsFile {
    type V = LemsFileV;

    open spec fn view(&self) -> LemsFileV {
        self.deep_view()
    }
}

/// What is registered after one more entry of a document: a component type
/// by its name, a unit by its symbol, a dimension and a constant by their
/// names. A later entry of the same name replaces the earlier one.
pub open spec fn with_item(f: LemsFileV, b: raw::LemsBody) -> LemsFileV {
    match b {
        raw::LemsBody::ComponentType(ct) => LemsFileV { types: put(f.types, ct.name@, ct), ..f },
        raw::LemsBody::Unit(u) => LemsFileV { units: put(f.units, u.symbol@, u), ..f },
        raw::LemsBody::Dimension(d) => LemsFileV {
            dimensions: put(f.dimensions, d.name@, d),
            ..f
        },
        raw::LemsBody::Constant(c) => LemsFileV { constants: put(f.constants, c.name@, c), ..f },
        _ => f,
    }
}

/// What is registered after the entries of a document, in order.
pub open spec fn with_items(f: LemsFileV, body: Seq<raw::LemsBody>) -> LemsFileV
    decreases body.len(),
{
    if body.len() == 0 {
        f
    } else {
        with_item(with_items(f, body.drop_last()), body.last())
    }
}

/// The type `name` and the types it extends, the nearest first. A chain with
/// more links than there are types must come back to a type already on it,
/// so `fuel` starts at the number of types. A name that is not registered is
/// unknown where it is asked for and malformed where a type extends it.
pub open spec fn lineage(types: Types, name: Seq<char>, fuel: nat) -> Result<
    Seq<raw::ComponentType>,
    Error,
>
    decreases fuel,
{
    match lookup(types, name) {
        None => Err(Error::UnknownType),
        Some(ct) => match ct.extends {
            None => Ok(seq![ct]),
            Some(base) => if fuel == 0 {
                Err(Error::Cycle)
            } else {
                match lineage(types, base@, (fuel - 1) as nat) {
                    Ok(rest) => Ok(seq![ct] + rest),
                    Err(e) => if e == Error::UnknownType {
                        Err(Error::Malformed)
                    } else {
                        Err(e)
                    },
                }
            },
        },
    }
}

/// `ct` after the bodies of the first `n` types of a lineage have been taken
/// in, the farthest ancestor first.
pub open spec fn inherited(
    ct: ComponentTypeV,
    line: Seq<raw::ComponentType>,
    n: nat,
    lex: LexiconV,
) -> Result<ComponentTypeV, Error>
    decreases n,
{
    if n == 0 || n > line.len() {
        Ok(ct)
    } else {
        match with_body(ct, line[n - 1].body@, lex) {
            Err(e) => Err(e),
            Ok(next) => inherited(next, line, (n - 1) as nat, lex),
        }
    }
}

/// The type `name` with all that it inherits: what its ancestors declare
/// comes first, what it declares itself comes last, and a declaration under
/// a name that is taken replaces the earlier one where that stands.
pub open spec fn composed(f: LemsFileV, name: Seq<char>) -> Result<ComponentTypeV, Error> {
    match lineage(f.types, name, f.types.len()) {
        Err(e) => Err(e),
        Ok(line) => inherited(
            empty_type(line[0].name@, line[0].extends.deep_view()),
            line,
            line.len(),
            f.lexicon,
        ),
    }
}

/// Whether `a` is `b` or extends it, directly or through other types.
pub open spec fn extends_to(types: Types, a: Seq<char>, b: Seq<char>, fuel: nat) -> bool
    decreases fuel,
{
    a == b || (fuel > 0 && match lookup(types, a) {
        Some(ct) => match ct.extends {
            Some(base) => extends_to(types, base@, b, (fuel - 1) as nat),
            None => false,
        },
        None => false,
    })
}

/// A lineage is never empty.
pub proof fn lemma_lineage_nonempty(types: Types, name: Seq<char>, fuel: nat)
    requires
        lineage(types, name, fuel) is Ok,
    ensures
        lineage(types, name, fuel)->Ok_0.len() >= 1,
        lookup(types, name) == Some(lineage(types, name, fuel)->Ok_0[0]),
    decreases fuel,
{
}

impl LemsFile {
    /// The registry of an empty document.
    pub fn new(lexicon: Lexicon) -> (r: Self)
        ensures
            r@ == (LemsFileV {
                types: Seq::empty(),
                units: Seq::empty(),
                dimensions: Seq::empty(),
                constants: Seq::empty(),
                lexicon: lexicon@,
            }),
    {
        LemsFile {
            types: Dict::new(),
            units: Dict::new(),
            dimensions: Dict::new(),
            constants: Dict::new(),
            lexicon,
        }
    }

    /// Registers one entry of a document.
    pub fn register(&mut self, b: raw::LemsBody)
        ensures
            final(self)@ == with_item(old(self)@, b),
    {
        match b {
            raw::LemsBody::ComponentType(ct) => {
                self.types.insert(ct.name.clone(), ct);
            },
            raw::LemsBody::Unit(u) => {
                self.units.insert(u.symbol.clone(), u);
            },
            raw::LemsBody::Dimension(d) => {
                self.dimensions.insert(d.name.clone(), d);
            },
            raw::LemsBody::Constant(c) => {
                self.constants.insert(c.name.clone(), c);
            },
            _ => {},
        }
    }

    /// The registry of a document whose numbers mean what `lexicon` says.
    pub fn from_raw(lems: raw::Lems, lexicon: Lexicon) -> (r: Self)
        ensures
            r@ == with_items(
                LemsFileV {
                    types: Seq::empty(),
                    units: Seq::empty(),
                    dimensions: Seq::empty(),
                    constants: Seq::empty(),
                    lexicon: lexicon@,
                },
                lems.body@,
            ),
    {
        let ghost all = lems.body@;
        let ghost n = all.len() as int;
        let mut out = Self::new(lexicon);
        let ghost init = out@;
        let mut rest = lems.body;
        let mut stack: Vec<raw::LemsBody> = Vec::new();
        while rest.len() > 0
            invariant
                rest@.len() + stack@.len() == n,
                n == all.len(),
                forall|j: int| 0 <= j < rest@.len() ==> rest@[j] == all[j],
                forall|j: int| 0 <= j < stack@.len() ==> stack@[j] == all[n - 1 - j],
            decreases rest@.len(),
        {
            let e = rest.pop().unwrap();
            stack.push(e);
        }
        assert(all.subrange(0, 0) =~= Seq::<raw::LemsBody>::empty());
        while stack.len() > 0
            invariant
                stack@.len() <= n,
                n == all.len(),
                forall|j: int| 0 <= j < stack@.len() ==> stack@[j] == all[n - 1 - j],
                out@ == with_items(init, all.subrange(0, n - stack@.len())),
            decreases stack@.len(),
        {
            let ghost i = n - stack@.len();
            let e = stack.pop().unwrap();
            assert(all.subrange(0, i + 1).drop_last() =~= all.subrange(0, i));
            assert(all.subrange(0, i + 1).last() == e);
            out.register(e);
        }
        assert(all.subrange(0, n) =~= all);
        out
    }

    /// The type `name` and the types it extends, the nearest first.
    pub fn lineage_of<'a>(&'a self, name: &str) -> (r: Result<Vec<&'a raw::ComponentType>, Error>)
        ensures
            match r {
                Ok(line) => lineage(self@.types, name@, self@.types.len()) == Ok::<
                    Seq<raw::ComponentType>,
                    Error,
                >(Seq::new(line@.len(), |i: int| *line@[i])),
                Err(e) => lineage(self@.types, name@, self@.types.len()) == Err::<
                    Seq<raw::ComponentType>,
                    Error,
                >(e),
            },
    {
        let first = match self.types.get(name) {
            Some(ct) => ct,
            None => {
                return Err(Error::UnknownType);
            },
        };
        let ghost types = self@.types;
        let total = self.types.len();
        let mut line: Vec<&'a raw::ComponentType> = Vec::new();
        line.push(first);
        let mut fuel: usize = total;
        loop
            invariant
                types == self@.types,
                total == types.len(),
                fuel <= total,
                line@.len() >= 1,
                line@.len() + fuel == total + 1,
                lookup(types, name@) == Some(*line@[0]),
                forall|j: int|
                    0 <= j < line@.len() - 1 ==> (#[trigger] line@[j]).extends is Some && lookup(
                        types,
                        line@[j].extends->Some_0@,
                    ) == Some(*line@[j + 1]),
            decreases fuel,
        {
            let last: &'a raw::ComponentType = line[line.len() - 1];
            match &last.extends {
                None => {
                    proof {
                        lemma_lineage_built(types, name@, Seq::new(line@.len(), |i: int| *line@[i]));
                    }
                    return Ok(line);
                },
                Some(base) => {
                    if fuel == 0 {
                        proof {
                            lemma_lineage_cycle(
                                types,
                                name@,
                                Seq::new(line@.len(), |i: int| *line@[i]),
                            );
                        }
                        return Err(Error::Cycle);
                    }
                    match self.types.get(base.as_str()) {
                        Some(ct) => {
                            line.push(ct);
                            fuel -= 1;
                        },
                        None => {
                            proof {
                                lemma_lineage_broken(
                                    types,
                                    name@,
                                    Seq::new(line@.len(), |i: int| *line@[i]),
                                    fuel as nat,
                                );
                            }
                            return Err(Error::Malformed);
                        },
                    }
                },
            }
        }
    }

    /// The type `name` with all that it inherits.
    pub fn compose_component_type(&self, name: &str) -> (r: Result<ComponentType, Error>)
        ensures
            match r {
                Ok(ct) => composed(self@, name@) == Ok::<ComponentTypeV, Error>(ct@),
                Err(e) => composed(self@, name@) == Err::<ComponentTypeV, Error>(e),
            },
    {
        let line = match self.lineage_of(name) {
            Ok(l) => l,
            Err(e) => {
                return Err(e);
            },
        };
        proof {
            lemma_lineage_nonempty(self@.types, name@, self@.types.len());
        }
        let ghost models = Seq::new(line@.len(), |i: int| *line@[i]);
        let mut ct = ComponentType::empty(line[0].name.as_str(), &line[0].extends);
        let ghost start = ct@;
        let mut n: usize = line.len();
        while n > 0
            invariant
                n <= line@.len(),
                models == Seq::new(line@.len(), |i: int| *line@[i]),
                models.len() >= 1,
                start == empty_type(models[0].name@, models[0].extends.deep_view()),
                lineage(self@.types, name@, self@.types.len()) == Ok::<
                    Seq<raw::ComponentType>,
                    Error,
                >(models),
                inherited(start, models, models.len(), self@.lexicon) == inherited(
                    ct@,
                    models,
                    n as nat,
                    self@.lexicon,
                ),
            decreases n,
        {
            assert(models[n - 1] == *line@[n - 1]);
            ct = match ct.extend(&line[n - 1].body, &self.lexicon) {
                Ok(next) => next,
                Err(e) => {
                    return Err(e);
                },
            };
            n -= 1;
        }
        Ok(ct)
    }

    /// Whether the type `a` is `b` or extends it, directly or through other
    /// types.
    pub fn derived_from(&self, a: &str, b: &str) -> (r: bool)
        ensures
            r == extends_to(self@.types, a@, b@, self@.types.len()),
    {
        if same(a, b) {
            return true;
        }
        let ghost types = self@.types;
        let mut fuel: usize = self.types.len();
        let mut cur = match self.types.get(a) {
            Some(ct) => ct,
            None => {
                return false;
            },
        };
        let ghost at = a@;
        loop
            invariant
                types == self@.types,
                at != b@,
                lookup(types, at) == Some(*cur),
                extends_to(types, a@, b@, types.len()) == extends_to(types, at, b@, fuel as nat),
            decreases fuel,
        {
            if fuel == 0 {
                return false;
            }
            match &cur.extends {
                None => {
                    return false;
                },
                Some(base) => {
                    assert(extends_to(types, at, b@, fuel as nat) == extends_to(
                        types,
                        base@,
                        b@,
                        (fuel - 1) as nat,
                    ));
                    if same(base.as_str(), b) {
                        assert(extends_to(types, base@, b@, (fuel - 1) as nat));
                        return true;
                    }
                    fuel -= 1;
                    match self.types.get(base.as_str()) {
                        Some(ct) => {
                            proof {
                                at = base@;
                            }
                            cur = ct;
                        },
                        None => {
                            assert(!extends_to(types, base@, b@, fuel as nat));
                            return false;
                        },
                    }
                },
            }
        }
    }
}

/// The links of a line of types: each but the last extends the next.
pub open spec fn linked(types: Types, line: Seq<raw::ComponentType>) -> bool {
    forall|j: int|
        0 <= j < line.len() - 1 ==> (#[trigger] line[j]).extends is Some && lookup(
            types,
            line[j].extends->Some_0@,
        ) == Some(line[j + 1])
}

/// What the lineage from the start of a line is, given the lineage from its
/// last type: the line before the last type, then that lineage.
pub proof fn lemma_lineage_tail(
    types: Types,
    name: Seq<char>,
    line: Seq<raw::ComponentType>,
    fuel: nat,
)
    requires
        line.len() >= 1,
        lookup(types, name) == Some(line[0]),
        linked(types, line),
    ensures
        lineage(types, name, (fuel + line.len() - 1) as nat) == (match lineage_from(
            types,
            line.last(),
            fuel,
        ) {
            Ok(rest) => Ok::<Seq<raw::ComponentType>, Error>(line.drop_last() + rest),
            Err(e) => if line.len() == 1 {
                Err::<Seq<raw::ComponentType>, Error>(e)
            } else if e == Error::UnknownType {
                Err(Error::Malformed)
            } else {
                Err(e)
            },
        }),
    decreases line.len(),
{
    if line.len() == 1 {
        assert(line.drop_last() =~= Seq::<raw::ComponentType>::empty());
        match lineage_from(types, line.last(), fuel) {
            Ok(rest) => {
                assert(line.drop_last() + rest =~= rest);
            },
            Err(e) => {},
        }
    } else {
        let tail = line.subrange(1, line.len() as int);
        let base = line[0].extends->Some_0@;
        assert(tail[0] == line[1]);
        assert(tail.last() == line.last());
        assert forall|j: int| 0 <= j < tail.len() - 1 implies (#[trigger] tail[j]).extends is Some
            && lookup(types, tail[j].extends->Some_0@) == Some(tail[j + 1]) by {
            assert(tail[j] == line[j + 1]);
            assert(tail[j + 1] == line[j + 2]);
        }
        lemma_lineage_tail(types, base, tail, fuel);
        assert(fuel + line.len() - 1 > 0);
        assert((fuel + line.len() - 1 - 1) as nat == fuel + tail.len() - 1);
        match lineage_from(types, line.last(), fuel) {
            Ok(rest) => {
                assert(seq![line[0]] + (tail.drop_last() + rest) =~= line.drop_last() + rest);
            },
            Err(e) => {},
        }
    }
}

/// The lineage that starts at a registered type.
pub open spec fn lineage_from(types: Types, ct: raw::ComponentType, fuel: nat) -> Result<
    Seq<raw::ComponentType>,
    Error,
> {
    match ct.extends {
        None => Ok(seq![ct]),
        Some(base) => if fuel == 0 {
            Err(Error::Cycle)
        } else {
            match lineage(types, base@, (fuel - 1) as nat) {
                Ok(rest) => Ok(seq![ct] + rest),
                Err(e) => if e == Error::UnknownType {
                    Err(Error::Malformed)
                } else {
                    Err(e)
                },
            }
        },
    }
}

/// A line that ends in a type without a base is the whole lineage.
pub proof fn lemma_lineage_built(types: Types, name: Seq<char>, line: Seq<raw::ComponentType>)
    requires
        line.len() >= 1,
        line.len() <= types.len() + 1,
        lookup(types, name) == Some(line[0]),
        linked(types, line),
        line.last().extends is None,
    ensures
        lineage(types, name, types.len()) == Ok::<Seq<raw::ComponentType>, Error>(line),
{
    let fuel = (types.len() + 1 - line.len()) as nat;
    lemma_lineage_tail(types, name, line, fuel);
    assert(line.drop_last() + seq![line.last()] =~= line);
}

/// A line as long as there are types and more, whose last type has a base
/// still, is a cycle.
pub proof fn lemma_lineage_cycle(types: Types, name: Seq<char>, line: Seq<raw::ComponentType>)
    requires
        line.len() == types.len() + 1,
        lookup(types, name) == Some(line[0]),
        linked(types, line),
        line.last().extends is Some,
    ensures
        lineage(types, name, types.len()) == Err::<Seq<raw::ComponentType>, Error>(Error::Cycle),
{
    lemma_lineage_tail(types, name, line, 0);
}

/// A line whose last type extends a name that is not registered is
/// malformed.
pub proof fn lemma_lineage_broken(
    types: Types,
    name: Seq<char>,
    line: Seq<raw::ComponentType>,
    fuel: nat,
)
    requires
        line.len() >= 1,
        fuel > 0,
        line.len() + fuel == types.len() + 1,
        lookup(types, name) == Some(line[0]),
        linked(types, line),
        line.last().extends is Some,
        lookup(types, line.last().extends->Some_0@).is_none(),
    ensures
        lineage(types, name, types.len()) == Err::<Seq<raw::ComponentType>, Error>(
            Error::Malformed,
        ),
{
    lemma_lineage_tail(types, name, line, fuel);
}

} // verus!

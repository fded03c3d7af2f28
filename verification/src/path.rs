use vstd::prelude::*;
use vstd::string::*;
use crate::error::Error;
use crate::text::{first_index, index_of, join, join_with, same, split, split_on, views};

verus! {

/// One step of a path through the tree of components.
#[derive(Debug, PartialEq)]
pub enum Path {
    /// The child, or the collection of children, of this name.
    Fixed(String),
    /// Those of the children of this name whose id the selector admits; the
    /// selector `*` admits every id.
    When(String, String),
}

pub enum PathV {
    Fixed(Seq<char>),
    When(Seq<char>, Seq<char>),
}

impl Clone for Path {
    fn clone(&self) -> (r: Self)
        ensures
            r@ == self@,
    {
        self.dup()
    }
}

impl DeepView for Path {
    type V = PathV;

    open spec fn deep_view(&self) -> PathV {
        match self {
            Path::Fixed(s) => PathV::Fixed(s@),
            Path::When(s, m) => PathV::When(s@, m@),
        }
    }
}

impl View for Path {
    type V = PathV;

    open spec fn view(&self) -> PathV {
        self.deep_view()
    }
}

impl Path {
    pub fn dup(&self) -> (r: Path)
        ensures
            r@ == self@,
    {
        match self {
            Path::Fixed(s) => Path::Fixed(s.clone()),
            Path::When(s, m) => Path::When(s.clone(), m.clone()),
        }
    }

    pub fn equals(&self, other: &Path) -> (r: bool)
        ensures
            r == (self@ == other@),
    {
        match (self, other) {
            (Path::Fixed(a), Path::Fixed(b)) => same(a.as_str(), b.as_str()),
            (Path::When(a, m), Path::When(b, n)) => same(a.as_str(), b.as_str()) && same(
                m.as_str(),
                n.as_str(),
            ),
            _ => false,
        }
    }

    /// The name of the slot that this step goes through.
    pub fn label(&self) -> (r: &String)
        ensures
            r@ == label(self@),
    {
        match self {
            Path::Fixed(s) => s,
            Path::When(s, _) => s,
        }
    }
}

/// The name of the slot that a step goes through.
pub open spec fn label(p: PathV) -> Seq<char> {
    match p {
        PathV::Fixed(s) => s,
        PathV::When(s, _) => s,
    }
}

/// The names of the slots that a path goes through.
pub open spec fn labels(ps: Seq<PathV>) -> Seq<Seq<char>> {
    Seq::new(ps.len(), |i: int| label(ps[i]))
}

/// A pattern of paths: a sequence of steps.
#[derive(Debug, PartialEq)]
pub struct Match(pub Vec<Path>);

impl Clone for Match {
    fn clone(&self) -> (r: Self)
        ensures
            r@ == self@,
    {
        self.dup()
    }
}

impl DeepView for Match {
    type V = Seq<PathV>;

    open spec fn deep_view(&self) -> Seq<PathV> {
        Seq::new(self.0@.len(), |i: int| self.0@[i]@)
    }
}

impl View for Match {
    type V = Seq<PathV>;

    open spec fn view(&self) -> Seq<PathV> {
        self.deep_view()
    }
}

/// A name as it may stand in a step: not empty, and free of brackets.
pub open spec fn plain(s: Seq<char>) -> bool {
    s.len() > 0 && first_index(s, '[').is_none() && first_index(s, ']').is_none()
}

/// The step that one piece of a written pattern stands for: `name`, or
/// `name[selector]`.
pub open spec fn parsed_step(piece: Seq<char>) -> Option<PathV> {
    match first_index(piece, '[') {
        None => if plain(piece) {
            Some(PathV::Fixed(piece))
        } else {
            None
        },
        Some(i) => {
            let name = piece.subrange(0, i);
            let selector = piece.subrange(i + 1, piece.len() - 1);
            if piece.last() == ']' && i + 1 < piece.len() && plain(name) && plain(selector) {
                Some(PathV::When(name, selector))
            } else {
                None
            }
        },
    }
}

/// The steps that the pieces of a written pattern stand for. A piece `*`
/// turns the name before it into a selection of all its children.
pub open spec fn parsed_steps(pieces: Seq<Seq<char>>) -> Option<Seq<PathV>>
    decreases pieces.len(),
{
    if pieces.len() == 0 {
        Some(Seq::empty())
    } else {
        match parsed_steps(pieces.drop_last()) {
            None => None,
            Some(head) => if pieces.last() == seq!['*'] {
                if head.len() > 0 && head.last() is Fixed {
                    Some(head.drop_last().push(PathV::When(head.last()->Fixed_0, seq!['*'])))
                } else {
                    None
                }
            } else {
                match parsed_step(pieces.last()) {
                    Some(p) => Some(head.push(p)),
                    None => None,
                }
            },
        }
    }
}

/// The pattern that a text stands for: its pieces between `/`, each read as a
/// step.
pub open spec fn parsed(text: Seq<char>) -> Option<Seq<PathV>> {
    parsed_steps(split(text, '/'))
}

/// Whether the segments of a name are what the pattern asks for, step by
/// step: a fixed step takes one segment, which must be its name; a selecting
/// step takes two, its name and an id that the selector admits.
pub open spec fn fits(pattern: Seq<PathV>, segments: Seq<Seq<char>>) -> bool
    decreases pattern.len(),
{
    if pattern.len() == 0 {
        segments.len() == 0
    } else {
        match pattern[0] {
            PathV::Fixed(s) => segments.len() >= 1 && segments[0] == s && fits(
                pattern.subrange(1, pattern.len() as int),
                segments.subrange(1, segments.len() as int),
            ),
            PathV::When(s, m) => segments.len() >= 2 && segments[0] == s && (m == seq!['*']
                || segments[1] == m) && fits(
                pattern.subrange(1, pattern.len() as int),
                segments.subrange(2, segments.len() as int),
            ),
        }
    }
}

/// Whether the flat name `key` lies on the pattern.
pub open spec fn on_pattern(pattern: Seq<PathV>, key: Seq<char>) -> bool {
    fits(pattern, split(key, '_'))
}

/// Those of `keys` that lie on the pattern, in the order of `keys`.
pub open spec fn selected(pattern: Seq<PathV>, keys: Seq<Seq<char>>) -> Seq<Seq<char>>
    decreases keys.len(),
{
    if keys.len() == 0 {
        Seq::empty()
    } else {
        let head = selected(pattern, keys.drop_last());
        if on_pattern(pattern, keys.last()) {
            head.push(keys.last())
        } else {
            head
        }
    }
}

/// The pattern that starts with a fixed step for each name of `prefix` and
/// goes on as `pattern`.
pub open spec fn prefixed(prefix: Seq<Seq<char>>, pattern: Seq<PathV>) -> Seq<PathV> {
    Seq::new(prefix.len(), |i: int| PathV::Fixed(prefix[i])) + pattern
}

/// Whether `s` is the text `*`.
pub fn is_star(s: &str) -> (r: bool)
    ensures
        r == (s@ == seq!['*']),
{
    if s.unicode_len() != 1 {
        return false;
    }
    let c = s.get_char(0);
    if c == '*' {
        assert(s@ =~= seq!['*']);
        true
    } else {
        assert(seq!['*'][0] == '*');
        false
    }
}

/// Whether `s` may stand as a name in a step.
pub fn is_plain(s: &str) -> (r: bool)
    ensures
        r == plain(s@),
{
    s.unicode_len() > 0 && index_of(s, '[').is_none() && index_of(s, ']').is_none()
}

/// Reads one piece of a written pattern.
pub fn parse_step(piece: &str) -> (r: Option<Path>)
    ensures
        r.deep_view() == parsed_step(piece@),
{
    match index_of(piece, '[') {
        None => {
            if is_plain(piece) {
                Some(Path::Fixed(piece.to_owned()))
            } else {
                None
            }
        },
        Some(i) => {
            let n = piece.unicode_len();
            if i + 1 < n && piece.get_char(n - 1) == ']' {
                let name = piece.substring_char(0, i);
                let selector = piece.substring_char(i + 1, n - 1);
                if is_plain(name) && is_plain(selector) {
                    Some(Path::When(name.to_owned(), selector.to_owned()))
                } else {
                    None
                }
            } else {
                None
            }
        },
    }
}

impl Match {
    /// Reads a pattern such as `gates[*]/fcond`. A pattern that cannot be read
    /// is a malformed expression.
    pub fn parse(text: &str) -> (r: Result<Match, Error>)
        ensures
            match r {
                Ok(m) => parsed(text@) == Some(m@),
                Err(e) => parsed(text@).is_none() && e == Error::BadExpr,
            },
    {
        let pieces = split_on(text, '/');
        let mut steps: Vec<Path> = Vec::new();
        let mut i: usize = 0;
        let ghost all = views(pieces@);
        assert(all.subrange(0, 0) =~= Seq::<Seq<char>>::empty());
        assert(Match(steps)@ =~= Seq::<PathV>::empty());
        while i < pieces.len()
            invariant
                i <= pieces.len(),
                all == views(pieces@),
                all == split(text@, '/'),
                parsed_steps(all.subrange(0, i as int)) == Some(Match(steps)@),
            decreases pieces.len() - i,
        {
            let ghost head = all.subrange(0, i as int);
            let ghost next = all.subrange(0, i + 1);
            let ghost before = Match(steps)@;
            assert(next.drop_last() =~= head);
            assert(next.last() == pieces@[i as int]@);
            let piece = pieces[i].as_str();
            if is_star(piece) {
                match steps.pop() {
                    Some(Path::Fixed(name)) => {
                        assert(before.last() == PathV::Fixed(name@));
                        steps.push(Path::When(name, "*".to_owned()));
                        proof {
                            reveal_strlit("*");
                            assert("*"@ =~= seq!['*']);
                            assert(Match(steps)@ =~= before.drop_last().push(
                                PathV::When(name@, seq!['*']),
                            ));
                        }
                    },
                    Some(Path::When(a, b)) => {
                        assert(before.last() == PathV::When(a@, b@));
                        proof {
                            lemma_parsed_steps_none(all, i + 1);
                        }
                        return Err(Error::BadExpr);
                    },
                    None => {
                        proof {
                            lemma_parsed_steps_none(all, i + 1);
                        }
                        return Err(Error::BadExpr);
                    },
                }
            } else {
                match parse_step(piece) {
                    Some(p) => {
                        steps.push(p);
                        assert(Match(steps)@ =~= before.push(p@));
                    },
                    None => {
                        proof {
                            lemma_parsed_steps_none(all, i + 1);
                        }
                        return Err(Error::BadExpr);
                    },
                }
            }
            i += 1;
        }
        assert(all.subrange(0, pieces.len() as int) =~= all);
        Ok(Match(steps))
    }

    /// A copy.
    pub fn dup(&self) -> (r: Match)
        ensures
            r@ == self@,
    {
        let mut out: Vec<Path> = Vec::new();
        let mut i: usize = 0;
        while i < self.0.len()
            invariant
                i <= self.0@.len(),
                out@.len() == i,
                forall|j: int| 0 <= j < i ==> out@[j]@ == self.0@[j]@,
            decreases self.0@.len() - i,
        {
            out.push(self.0[i].dup());
            i += 1;
        }
        let r = Match(out);
        assert(r@ =~= self@);
        r
    }

    /// Whether the two patterns are the same.
    pub fn equals(&self, other: &Match) -> (r: bool)
        ensures
            r == (self@ == other@),
    {
        if self.0.len() != other.0.len() {
            assert(self@.len() != other@.len());
            return false;
        }
        let mut i: usize = 0;
        while i < self.0.len()
            invariant
                i <= self.0@.len(),
                self.0@.len() == other.0@.len(),
                forall|j: int| 0 <= j < i ==> self.0@[j]@ == other.0@[j]@,
            decreases self.0@.len() - i,
        {
            if !self.0[i].equals(&other.0[i]) {
                assert(self@[i as int] != other@[i as int]);
                return false;
            }
            i += 1;
        }
        assert(self@ =~= other@);
        true
    }

    /// The pattern as seen from further out: a fixed step for each name of
    /// `prefix`, then the steps of this pattern.
    pub fn add_prefix(&self, prefix: &Vec<String>) -> (r: Match)
        ensures
            r@ == prefixed(views(prefix@), self@),
    {
        let mut out: Vec<Path> = Vec::new();
        let mut i: usize = 0;
        while i < prefix.len()
            invariant
                i <= prefix.len(),
                out@.len() == i,
                forall|j: int| 0 <= j < i ==> out@[j]@ == PathV::Fixed(prefix@[j]@),
            decreases prefix.len() - i,
        {
            out.push(Path::Fixed(prefix[i].clone()));
            i += 1;
        }
        let mut k: usize = 0;
        while k < self.0.len()
            invariant
                k <= self.0@.len(),
                out@.len() == prefix.len() + k,
                forall|j: int| 0 <= j < prefix.len() ==> out@[j]@ == PathV::Fixed(prefix@[j]@),
                forall|j: int| 0 <= j < k ==> out@[prefix.len() + j]@ == self.0@[j]@,
            decreases self.0@.len() - k,
        {
            out.push(self.0[k].dup());
            k += 1;
        }
        let r = Match(out);
        assert(r@ =~= prefixed(views(prefix@), self@));
        r
    }

    /// The names of the slots that the pattern goes through, joined by `_`.
    pub fn label(&self) -> (r: String)
        ensures
            r@ == join(labels(self@), "_"@),
    {
        let mut names: Vec<String> = Vec::new();
        let mut i: usize = 0;
        while i < self.0.len()
            invariant
                i <= self.0@.len(),
                names@.len() == i,
                forall|j: int| 0 <= j < i ==> names@[j]@ == label(self.0@[j]@),
            decreases self.0@.len() - i,
        {
            names.push(self.0[i].label().clone());
            i += 1;
        }
        assert(views(names@) =~= labels(self@));
        join_with(&names, "_")
    }

    /// Whether the flat name `key` lies on the pattern.
    pub fn admits(&self, key: &str) -> (r: bool)
        ensures
            r == on_pattern(self@, key@),
    {
        let segments = split_on(key, '_');
        let ghost segs = views(segments@);
        let ghost pattern = self@;
        let mut p: usize = 0;
        let mut q: usize = 0;
        assert(pattern.subrange(0, pattern.len() as int) =~= pattern);
        assert(segs.subrange(0, segs.len() as int) =~= segs);
        while p < self.0.len()
            invariant
                p <= self.0@.len(),
                q <= segments@.len(),
                pattern == self@,
                segs == views(segments@),
                segs == split(key@, '_'),
                fits(pattern, segs) == fits(
                    pattern.subrange(p as int, pattern.len() as int),
                    segs.subrange(q as int, segs.len() as int),
                ),
            decreases self.0@.len() - p,
        {
            let ghost rest = pattern.subrange(p as int, pattern.len() as int);
            let ghost left = segs.subrange(q as int, segs.len() as int);
            assert(rest[0] == self.0@[p as int]@);
            assert(forall|j: int| 0 <= j < left.len() ==> left[j] == segments@[q + j]@);
            assert(rest.subrange(1, rest.len() as int) =~= pattern.subrange(
                p + 1,
                pattern.len() as int,
            ));
            match &self.0[p] {
                Path::Fixed(s) => {
                    if q >= segments.len() || !same(segments[q].as_str(), s.as_str()) {
                        return false;
                    }
                    assert(left.subrange(1, left.len() as int) =~= segs.subrange(
                        q + 1,
                        segs.len() as int,
                    ));
                    q += 1;
                },
                Path::When(s, m) => {
                    if segments.len() - q < 2 || !same(segments[q].as_str(), s.as_str()) {
                        return false;
                    }
                    if !is_star(m.as_str()) && !same(segments[q + 1].as_str(), m.as_str()) {
                        return false;
                    }
                    assert(left.subrange(2, left.len() as int) =~= segs.subrange(
                        q + 2,
                        segs.len() as int,
                    ));
                    q += 2;
                },
            }
            p += 1;
        }
        q == segments.len()
    }

    /// Those of `keys` that lie on the pattern, in the order of `keys`.
    pub fn on_path(&self, keys: &Vec<String>) -> (r: Vec<String>)
        ensures
            views(r@) == selected(self@, views(keys@)),
    {
        let mut out: Vec<String> = Vec::new();
        let mut i: usize = 0;
        let ghost all = views(keys@);
        assert(all.subrange(0, 0) =~= Seq::<Seq<char>>::empty());
        assert(views(out@) =~= Seq::<Seq<char>>::empty());
        while i < keys.len()
            invariant
                i <= keys.len(),
                all == views(keys@),
                views(out@) == selected(self@, all.subrange(0, i as int)),
            decreases keys.len() - i,
        {
            let ghost head = all.subrange(0, i as int);
            let ghost next = all.subrange(0, i + 1);
            let ghost before = views(out@);
            assert(next.drop_last() =~= head);
            assert(next.last() == keys@[i as int]@);
            if self.admits(keys[i].as_str()) {
                out.push(keys[i].clone());
                assert(views(out@) =~= before.push(keys@[i as int]@));
            }
            i += 1;
        }
        assert(all.subrange(0, keys.len() as int) =~= all);
        out
    }
}

/// Once the pieces up to `n` cannot be read, no longer run of pieces can.
pub proof fn lemma_parsed_steps_none(pieces: Seq<Seq<char>>, n: int)
    requires
        0 <= n <= pieces.len(),
        parsed_steps(pieces.subrange(0, n)).is_none(),
    ensures
        parsed_steps(pieces).is_none(),
    decreases pieces.len() - n,
{
    if n < pieces.len() {
        assert(pieces.subrange(0, n + 1).drop_last() =~= pieces.subrange(0, n));
        lemma_parsed_steps_none(pieces, n + 1);
    } else {
        assert(pieces.subrange(0, n) =~= pieces);
    }
}

} // verus!

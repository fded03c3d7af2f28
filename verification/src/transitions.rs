use vstd::prelude::*;
use crate::context::dup_names;
use crate::dict::{entries_view, lookup, position_in};
use crate::error::Error;
use crate::instance::{Instance, InstanceV, Kinetic, KineticV};
use crate::path::{is_star, labels, Match, Path, PathV};
use crate::text::{join, join_with, same, views};

verus! {

/// The components that a walk has reached, each with the labels of the path
/// that led to it.
pub type Walk = Seq<(Seq<Seq<char>>, InstanceV)>;

/// A transition of a kinetic scheme: the state it leaves, the state it
/// enters, and the rates forth and back, all by their flat names.
pub type Transition = (Seq<char>, Seq<char>, Seq<char>, Seq<char>);

/// The label that a component goes by among its siblings.
pub open spec fn id_or_unknown(x: InstanceV) -> Seq<char> {
    match x.id {
        Some(id) => id,
        None => "Unknown"@,
    }
}

/// The single children named `s` of the components of the walk.
pub open spec fn into_child(nodes: Walk, s: Seq<char>) -> Walk
    decreases nodes.len(),
{
    if nodes.len() == 0 {
        Seq::empty()
    } else {
        let head = into_child(nodes.drop_last(), s);
        match lookup(nodes.last().1.child, s) {
            Some(x) => head.push((nodes.last().0.push(s), x)),
            None => head,
        }
    }
}

/// Whether a component of the walk has a group of children named `s`.
pub open spec fn any_children(nodes: Walk, s: Seq<char>) -> bool
    decreases nodes.len(),
{
    nodes.len() > 0 && (any_children(nodes.drop_last(), s) || lookup(
        nodes.last().1.children,
        s,
    ) is Some)
}

/// Those of `xs` whose id is `q`, each reached by `path` and then `q`.
pub open spec fn entries_with_id(path: Seq<Seq<char>>, xs: Seq<InstanceV>, q: Seq<char>) -> Walk
    decreases xs.len(),
{
    if xs.len() == 0 {
        Seq::empty()
    } else {
        let head = entries_with_id(path, xs.drop_last(), q);
        if xs.last().id == Some(q) {
            head.push((path.push(q), xs.last()))
        } else {
            head
        }
    }
}

/// All of `xs`, each reached by `path` and then its own label.
pub open spec fn entries(path: Seq<Seq<char>>, xs: Seq<InstanceV>) -> Walk {
    Seq::new(xs.len(), |i: int| (path.push(id_or_unknown(xs[i])), xs[i]))
}

/// The children with id `q` in the groups named `s` of the components of the
/// walk.
pub open spec fn into_entry(nodes: Walk, s: Seq<char>, q: Seq<char>) -> Walk
    decreases nodes.len(),
{
    if nodes.len() == 0 {
        Seq::empty()
    } else {
        let head = into_entry(nodes.drop_last(), s, q);
        match lookup(nodes.last().1.children, s) {
            Some(xs) => head + entries_with_id(nodes.last().0.push(s), xs, q),
            None => head,
        }
    }
}

/// All the children in the groups named `s` of the components of the walk.
pub open spec fn into_all(nodes: Walk, s: Seq<char>) -> Walk
    decreases nodes.len(),
{
    if nodes.len() == 0 {
        Seq::empty()
    } else {
        let head = into_all(nodes.drop_last(), s);
        match lookup(nodes.last().1.children, s) {
            Some(xs) => head + entries(nodes.last().0.push(s), xs),
            None => head,
        }
    }
}

/// The walk that stands at `root` and has gone nowhere yet.
pub open spec fn origin(root: InstanceV) -> Walk {
    seq![(Seq::empty(), root)]
}

/// Where the walk stands after the steps `ps`. A fixed step goes into the
/// single child of its name where there is one; else, together with a fixed
/// step after it, into the group of its name and there to the child whose id
/// the second step names. A step that selects all goes into every child of
/// the group. No other step can be walked.
pub open spec fn walked(nodes: Walk, ps: Seq<PathV>) -> Result<Walk, Error>
    decreases ps.len(),
{
    if ps.len() == 0 {
        Ok(nodes)
    } else {
        match ps[0] {
            PathV::Fixed(s) => if into_child(nodes, s).len() > 0 {
                walked(into_child(nodes, s), ps.subrange(1, ps.len() as int))
            } else if ps.len() >= 2 && ps[1] is Fixed && any_children(nodes, s) {
                walked(into_entry(nodes, s, ps[1]->Fixed_0), ps.subrange(2, ps.len() as int))
            } else {
                Err(Error::UnsupportedPattern)
            },
            PathV::When(s, m) => if m == seq!['*'] {
                walked(into_all(nodes, s), ps.subrange(1, ps.len() as int))
            } else {
                Err(Error::UnsupportedPattern)
            },
        }
    }
}

/// The transition that the edge `node`, reached by `path`, stands for in the
/// scheme `k`. The edge must say in its attributes `from` and `to` which
/// states it joins.
pub open spec fn transition(k: KineticV, path: Seq<Seq<char>>, node: InstanceV) -> Result<
    Transition,
    Error,
> {
    let states = join(labels(k.node), "_"@);
    let edge = join(path, "_"@);
    match (lookup(node.attributes, "from"@), lookup(node.attributes, "to"@)) {
        (Some(from), Some(to)) => Ok(
            (
                join(seq![states, from, k.state], "_"@),
                join(seq![states, to, k.state], "_"@),
                join(seq![edge, k.rfwd], "_"@),
                join(seq![edge, k.rbwd], "_"@),
            ),
        ),
        _ => Err(Error::MissingRequired),
    }
}

/// The transitions of the edges that a walk has reached, in order.
pub open spec fn transitions_along(k: KineticV, walk: Walk) -> Result<Seq<Transition>, Error>
    decreases walk.len(),
{
    if walk.len() == 0 {
        Ok(Seq::empty())
    } else {
        match transitions_along(k, walk.drop_last()) {
            Err(e) => Err(e),
            Ok(head) => match transition(k, walk.last().0, walk.last().1) {
                Err(e) => Err(e),
                Ok(t) => Ok(head.push(t)),
            },
        }
    }
}

/// The transitions of the scheme `k` in the tree below `root`.
pub open spec fn transitions_for(k: KineticV, root: InstanceV) -> Result<Seq<Transition>, Error> {
    match walked(origin(root), k.edge) {
        Err(e) => Err(e),
        Ok(walk) => transitions_along(k, walk),
    }
}

/// The transitions of the schemes `ks` in the tree below `root`, scheme by
/// scheme.
pub open spec fn transitions_of(ks: Seq<KineticV>, root: InstanceV) -> Result<
    Seq<Transition>,
    Error,
>
    decreases ks.len(),
{
    if ks.len() == 0 {
        Ok(Seq::empty())
    } else {
        match transitions_of(ks.drop_last(), root) {
            Err(e) => Err(e),
            Ok(head) => match transitions_for(ks.last(), root) {
                Err(e) => Err(e),
                Ok(ts) => Ok(head + ts),
            },
        }
    }
}

/// An error among the first `n` edges is the error of all of them.
pub proof fn lemma_along_err(k: KineticV, walk: Walk, n: int)
    requires
        0 <= n <= walk.len(),
        transitions_along(k, walk.subrange(0, n)) is Err,
    ensures
        transitions_along(k, walk) == transitions_along(k, walk.subrange(0, n)),
    decreases walk.len() - n,
{
    if n < walk.len() {
        assert(walk.subrange(0, n + 1).drop_last() =~= walk.subrange(0, n));
        lemma_along_err(k, walk, n + 1);
    } else {
        assert(walk.subrange(0, n) =~= walk);
    }
}

/// An error among the first `n` schemes is the error of all of them.
pub proof fn lemma_of_err(ks: Seq<KineticV>, root: InstanceV, n: int)
    requires
        0 <= n <= ks.len(),
        transitions_of(ks.subrange(0, n), root) is Err,
    ensures
        transitions_of(ks, root) == transitions_of(ks.subrange(0, n), root),
    decreases ks.len() - n,
{
    if n < ks.len() {
        assert(ks.subrange(0, n + 1).drop_last() =~= ks.subrange(0, n));
        lemma_of_err(ks, root, n + 1);
    } else {
        assert(ks.subrange(0, n) =~= ks);
    }
}

/// What a list of reached components stands for.
pub open spec fn walk_view(v: Seq<(Vec<String>, &Instance)>) -> Walk {
    Seq::new(v.len(), |i: int| (views(v[i].0@), v[i].1@))
}

/// `path` with `last` after it.
fn extended(path: &Vec<String>, last: &str) -> (r: Vec<String>)
    ensures
        views(r@) == views(path@).push(last@),
{
    let mut out = dup_names(path);
    let ghost before = views(out@);
    out.push(last.to_owned());
    assert(views(out@) =~= before.push(last@));
    out
}

/// The single children named `s` of the components reached.
pub fn step_child<'a>(nodes: &Vec<(Vec<String>, &'a Instance)>, s: &str) -> (r: Vec<
    (Vec<String>, &'a Instance),
>)
    ensures
        walk_view(r@) == into_child(walk_view(nodes@), s@),
{
    let mut out: Vec<(Vec<String>, &'a Instance)> = Vec::new();
    let mut i: usize = 0;
    let ghost all = walk_view(nodes@);
    assert(all.subrange(0, 0) =~= Seq::<(Seq<Seq<char>>, InstanceV)>::empty());
    assert(walk_view(out@) =~= Seq::<(Seq<Seq<char>>, InstanceV)>::empty());
    while i < nodes.len()
        invariant
            i <= nodes.len(),
            all == walk_view(nodes@),
            walk_view(out@) == into_child(all.subrange(0, i as int), s@),
        decreases nodes.len() - i,
    {
        let ghost before = walk_view(out@);
        assert(all.subrange(0, i + 1).drop_last() =~= all.subrange(0, i as int));
        assert(all.subrange(0, i + 1).last() == all[i as int]);
        let node: &'a Instance = nodes[i].1;
        proof {
            node.lemma_model();
            assert(entries_view(node.child@) =~= node@.child);
        }
        match position_in(&node.child, s) {
            Some(p) => {
                proof {
                    crate::dict::lemma_find(node@.child, s@);
                }
                out.push((extended(&nodes[i].0, s), &node.child[p].1));
                assert(walk_view(out@) =~= before.push(
                    (all[i as int].0.push(s@), node@.child[p as int].1),
                ));
            },
            None => {},
        }
        i += 1;
    }
    assert(all.subrange(0, nodes.len() as int) =~= all);
    out
}

/// Those of `xs` whose id is `q`, each reached by `path` and then `q`.
fn pick_entries<'a>(path: &Vec<String>, xs: &'a Vec<Instance>, q: &str) -> (r: Vec<
    (Vec<String>, &'a Instance),
>)
    ensures
        walk_view(r@) == entries_with_id(views(path@), xs.deep_view(), q@),
{
    let mut out: Vec<(Vec<String>, &'a Instance)> = Vec::new();
    let mut i: usize = 0;
    let ghost all = xs.deep_view();
    assert(all.subrange(0, 0) =~= Seq::<InstanceV>::empty());
    assert(walk_view(out@) =~= Seq::<(Seq<Seq<char>>, InstanceV)>::empty());
    while i < xs.len()
        invariant
            i <= xs.len(),
            all == xs.deep_view(),
            walk_view(out@) == entries_with_id(views(path@), all.subrange(0, i as int), q@),
        decreases xs.len() - i,
    {
        let ghost before = walk_view(out@);
        assert(all.subrange(0, i + 1).drop_last() =~= all.subrange(0, i as int));
        assert(all.subrange(0, i + 1).last() == xs@[i as int]@);
        proof {
            xs@[i as int].lemma_model();
        }
        let hit = match &xs[i].id {
            Some(id) => same(id.as_str(), q),
            None => false,
        };
        if hit {
            out.push((extended(path, q), &xs[i]));
            assert(walk_view(out@) =~= before.push((views(path@).push(q@), xs@[i as int]@)));
        }
        i += 1;
    }
    assert(all.subrange(0, xs.len() as int) =~= all);
    out
}

/// All of `xs`, each reached by `path` and then its own label.
fn all_entries<'a>(path: &Vec<String>, xs: &'a Vec<Instance>) -> (r: Vec<
    (Vec<String>, &'a Instance),
>)
    ensures
        walk_view(r@) == entries(views(path@), xs.deep_view()),
{
    let mut out: Vec<(Vec<String>, &'a Instance)> = Vec::new();
    let mut i: usize = 0;
    while i < xs.len()
        invariant
            i <= xs.len(),
            out@.len() == i,
            forall|j: int|
                0 <= j < i ==> views((#[trigger] out@[j]).0@) == views(path@).push(
                    id_or_unknown(xs@[j]@),
                ) && out@[j].1@ == xs@[j]@,
        decreases xs.len() - i,
    {
        proof {
            xs@[i as int].lemma_model();
        }
        let label = match &xs[i].id {
            Some(id) => id.clone(),
            None => "Unknown".to_owned(),
        };
        out.push((extended(path, label.as_str()), &xs[i]));
        i += 1;
    }
    assert(walk_view(out@) =~= entries(views(path@), xs.deep_view()));
    out
}

/// The models of the children in a group.
proof fn lemma_group(node: &Instance, p: int)
    requires
        0 <= p < node.children@.len(),
    ensures
        node@.children[p].1 == node.children@[p].1.deep_view(),
        entries_view(node.children@) == node@.children,
{
    node.lemma_model();
    assert(node@.children[p].1 =~= node.children@[p].1.deep_view());
    assert forall|g: int| 0 <= g < node.children@.len() implies entries_view(node.children@)[g]
        == node@.children[g] by {
        assert(node@.children[g].1 =~= node.children@[g].1.deep_view());
    }
    assert(entries_view(node.children@) =~= node@.children);
}

proof fn lemma_groups(node: &Instance)
    ensures
        entries_view(node.children@) == node@.children,
{
    node.lemma_model();
    assert forall|g: int| 0 <= g < node.children@.len() implies entries_view(node.children@)[g]
        == node@.children[g] by {
        assert(node@.children[g].1 =~= node.children@[g].1.deep_view());
    }
    assert(entries_view(node.children@) =~= node@.children);
}

/// The children with id `q` in the groups named `s` of the components
/// reached, and whether there is such a group at all.
pub fn step_entry<'a>(nodes: &Vec<(Vec<String>, &'a Instance)>, s: &str, q: &str) -> (r: (
    bool,
    Vec<(Vec<String>, &'a Instance)>,
))
    ensures
        r.0 == any_children(walk_view(nodes@), s@),
        walk_view(r.1@) == into_entry(walk_view(nodes@), s@, q@),
{
    let mut out: Vec<(Vec<String>, &'a Instance)> = Vec::new();
    let mut found = false;
    let mut i: usize = 0;
    let ghost all = walk_view(nodes@);
    assert(all.subrange(0, 0) =~= Seq::<(Seq<Seq<char>>, InstanceV)>::empty());
    assert(walk_view(out@) =~= Seq::<(Seq<Seq<char>>, InstanceV)>::empty());
    while i < nodes.len()
        invariant
            i <= nodes.len(),
            all == walk_view(nodes@),
            found == any_children(all.subrange(0, i as int), s@),
            walk_view(out@) == into_entry(all.subrange(0, i as int), s@, q@),
        decreases nodes.len() - i,
    {
        let ghost before = walk_view(out@);
        assert(all.subrange(0, i + 1).drop_last() =~= all.subrange(0, i as int));
        assert(all.subrange(0, i + 1).last() == all[i as int]);
        let node: &'a Instance = nodes[i].1;
        proof {
            lemma_groups(node);
        }
        match position_in(&node.children, s) {
            Some(p) => {
                proof {
                    crate::dict::lemma_find(node@.children, s@);
                    lemma_group(node, p as int);
                }
                found = true;
                let path = extended(&nodes[i].0, s);
                let mut more = pick_entries(&path, &node.children[p].1, q);
                let ghost added = walk_view(more@);
                out.append(&mut more);
                assert(walk_view(out@) =~= before + added);
            },
            None => {},
        }
        i += 1;
    }
    assert(all.subrange(0, nodes.len() as int) =~= all);
    (found, out)
}

/// All the children in the groups named `s` of the components reached.
pub fn step_all<'a>(nodes: &Vec<(Vec<String>, &'a Instance)>, s: &str) -> (r: Vec<
    (Vec<String>, &'a Instance),
>)
    ensures
        walk_view(r@) == into_all(walk_view(nodes@), s@),
{
    let mut out: Vec<(Vec<String>, &'a Instance)> = Vec::new();
    let mut i: usize = 0;
    let ghost all = walk_view(nodes@);
    assert(all.subrange(0, 0) =~= Seq::<(Seq<Seq<char>>, InstanceV)>::empty());
    assert(walk_view(out@) =~= Seq::<(Seq<Seq<char>>, InstanceV)>::empty());
    while i < nodes.len()
        invariant
            i <= nodes.len(),
            all == walk_view(nodes@),
            walk_view(out@) == into_all(all.subrange(0, i as int), s@),
        decreases nodes.len() - i,
    {
        let ghost before = walk_view(out@);
        assert(all.subrange(0, i + 1).drop_last() =~= all.subrange(0, i as int));
        assert(all.subrange(0, i + 1).last() == all[i as int]);
        let node: &'a Instance = nodes[i].1;
        proof {
            lemma_groups(node);
        }
        match position_in(&node.children, s) {
            Some(p) => {
                proof {
                    crate::dict::lemma_find(node@.children, s@);
                    lemma_group(node, p as int);
                }
                let path = extended(&nodes[i].0, s);
                let mut more = all_entries(&path, &node.children[p].1);
                let ghost added = walk_view(more@);
                out.append(&mut more);
                assert(walk_view(out@) =~= before + added);
            },
            None => {},
        }
        i += 1;
    }
    assert(all.subrange(0, nodes.len() as int) =~= all);
    out
}

/// The components that the pattern reaches from `root`.
pub fn walk<'a>(root: &'a Instance, pattern: &Match) -> (r: Result<
    Vec<(Vec<String>, &'a Instance)>,
    Error,
>)
    ensures
        match r {
            Ok(w) => walked(origin(root@), pattern@) == Ok::<Walk, Error>(
                walk_view(w@),
            ),
            Err(e) => walked(origin(root@), pattern@) == Err::<Walk, Error>(e),
        },
{
    let mut nodes: Vec<(Vec<String>, &'a Instance)> = Vec::new();
    nodes.push((Vec::new(), root));
    let ghost start: Walk = origin(root@);
    assert(walk_view(nodes@) =~= start) by {
        assert(views(nodes@[0].0@) =~= Seq::<Seq<char>>::empty());
    }
    let ghost ps = pattern@;
    let n = pattern.0.len();
    let mut ix: usize = 0;
    assert(ps.subrange(0, ps.len() as int) =~= ps);
    while ix < n
        invariant
            ix <= n,
            n == pattern.0@.len(),
            ps == pattern@,
            start == origin(root@),
            walked(start, ps) == walked(walk_view(nodes@), ps.subrange(ix as int, ps.len() as int)),
        decreases n - ix,
    {
        let ghost rest = ps.subrange(ix as int, ps.len() as int);
        assert(rest[0] == pattern.0@[ix as int]@);
        assert(rest.subrange(1, rest.len() as int) =~= ps.subrange(ix + 1, ps.len() as int));
        match &pattern.0[ix] {
            Path::Fixed(s) => {
                let below = step_child(&nodes, s.as_str());
                if below.len() > 0 {
                    nodes = below;
                    ix += 1;
                } else {
                    if ix + 1 < n {
                        assert(rest[1] == pattern.0@[ix + 1]@);
                        assert(rest.subrange(2, rest.len() as int) =~= ps.subrange(
                            ix + 2,
                            ps.len() as int,
                        ));
                        match &pattern.0[ix + 1] {
                            Path::Fixed(q) => {
                                let (found, picked) = step_entry(&nodes, s.as_str(), q.as_str());
                                if found {
                                    nodes = picked;
                                    ix += 2;
                                } else {
                                    return Err(Error::UnsupportedPattern);
                                }
                            },
                            Path::When(_, _) => {
                                return Err(Error::UnsupportedPattern);
                            },
                        }
                    } else {
                        return Err(Error::UnsupportedPattern);
                    }
                }
            },
            Path::When(s, m) => {
                if is_star(m.as_str()) {
                    nodes = step_all(&nodes, s.as_str());
                    ix += 1;
                } else {
                    return Err(Error::UnsupportedPattern);
                }
            },
        }
    }
    Ok(nodes)
}

/// The text that an edge has under `key`.
fn attribute<'a>(node: &'a Instance, key: &str) -> (r: Option<&'a String>)
    ensures
        r.deep_view() == lookup(node@.attributes, key@),
{
    proof {
        node.lemma_model();
    }
    node.attributes.get(key)
}

/// The pieces joined by `_`.
fn chain(a: &str, b: &str, c: &str) -> (r: String)
    ensures
        r@ == join(seq![a@, b@, c@], "_"@),
{
    let mut parts: Vec<String> = Vec::new();
    parts.push(a.to_owned());
    parts.push(b.to_owned());
    parts.push(c.to_owned());
    assert(views(parts@) =~= seq![a@, b@, c@]);
    join_with(&parts, "_")
}

fn pair(a: &str, b: &str) -> (r: String)
    ensures
        r@ == join(seq![a@, b@], "_"@),
{
    let mut parts: Vec<String> = Vec::new();
    parts.push(a.to_owned());
    parts.push(b.to_owned());
    assert(views(parts@) =~= seq![a@, b@]);
    join_with(&parts, "_")
}

/// The transitions of the scheme `k` in the tree below `root`.
pub fn transitions(k: &Kinetic, root: &Instance) -> (r: Result<
    Vec<(String, String, String, String)>,
    Error,
>)
    ensures
        match r {
            Ok(ts) => transitions_for(k@, root@) == Ok::<Seq<Transition>, Error>(ts.deep_view()),
            Err(e) => transitions_for(k@, root@) == Err::<Seq<Transition>, Error>(e),
        },
{
    let nodes = match walk(root, &k.edge) {
        Ok(w) => w,
        Err(e) => {
            return Err(e);
        },
    };
    let states = k.node.label();
    let mut out: Vec<(String, String, String, String)> = Vec::new();
    let ghost all = walk_view(nodes@);
    let mut i: usize = 0;
    assert(all.subrange(0, 0) =~= Seq::<(Seq<Seq<char>>, InstanceV)>::empty());
    assert(out.deep_view() =~= Seq::<Transition>::empty());
    while i < nodes.len()
        invariant
            i <= nodes.len(),
            all == walk_view(nodes@),
            states@ == join(labels(k@.node), "_"@),
            walked(origin(root@), k@.edge) == Ok::<Walk, Error>(all),
            transitions_along(k@, all.subrange(0, i as int)) == Ok::<Seq<Transition>, Error>(
                out.deep_view(),
            ),
        decreases nodes.len() - i,
    {
        let ghost before = out.deep_view();
        assert(all.subrange(0, i + 1).drop_last() =~= all.subrange(0, i as int));
        assert(all.subrange(0, i + 1).last() == all[i as int]);
        let node = nodes[i].1;
        let edge = join_with(&nodes[i].0, "_");
        match (attribute(node, "from"), attribute(node, "to")) {
            (Some(from), Some(to)) => {
                let t = (
                    chain(states.as_str(), from.as_str(), k.state.as_str()),
                    chain(states.as_str(), to.as_str(), k.state.as_str()),
                    pair(edge.as_str(), k.rfwd.as_str()),
                    pair(edge.as_str(), k.rbwd.as_str()),
                );
                let ghost tv = t.deep_view();
                out.push(t);
                assert(out.deep_view() =~= before.push(tv));
            },
            _ => {
                proof {
                    lemma_along_err(k@, all, i + 1);
                }
                return Err(Error::MissingRequired);
            },
        }
        i += 1;
    }
    assert(all.subrange(0, nodes.len() as int) =~= all);
    Ok(out)
}

} // verus!

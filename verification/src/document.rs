use vstd::prelude::*;
use crate::error::Error;
use crate::xml::{dup_attributes, XmlNode, XmlNodeV};

verus! {

/// A node of a document as a scan hands it out: its number, the number of
/// the node it lies in, whether it is an element, its tag and its attributes.
pub type Scanned = (usize, Option<usize>, bool, String, Vec<(String, String)>);

/// The model of a scanned node.
pub type ScannedV = (usize, Option<usize>, bool, Seq<char>, Seq<(Seq<char>, Seq<char>)>);

/// The nodes of the document that `text` spells, in the order in which they
/// stand in it, or nothing where the text is no document.
pub uninterp spec fn scanned(text: Seq<char>) -> Option<Seq<ScannedV>>;

/// Parses `text` with `roxmltree::Document::parse` and hands out the nodes
/// that `Document::descendants` walks through, one for one: for each node its
/// `id`, the `id` of its `parent`, what `is_element` says of it, the local
/// name of its `tag_name`, and the local name and the value of each of its
/// `attributes`. The contract claims only that the same text gives the same
/// nodes; nothing the library proves rests on more.
#[verifier::external_body]
fn scan(text: &str) -> (r: Option<Vec<Scanned>>)
    ensures
        r.deep_view() == scanned(text@),
{
    let doc = roxmltree::Document::parse(text).ok()?;
    Some(
        doc.descendants().map(
            |n|
                (
                    n.id().get_usize(),
                    n.parent().map(|p| p.id().get_usize()),
                    n.is_element(),
                    n.tag_name().name().to_string(),
                    n.attributes().map(|a| (a.name().to_string(), a.value().to_string())).collect(),
                ),
        ).collect(),
    )
}

/// The element at the place `i` of a scan, with the elements in it.
pub open spec fn element_at(scan: Seq<ScannedV>, i: int) -> XmlNodeV
    decreases scan.len() - i, 0nat,
{
    XmlNodeV {
        tag: scan[i].3,
        attributes: scan[i].4,
        children: if 0 <= i < scan.len() {
            elements_in(scan, scan[i].0, i + 1, scan.len() as int)
        } else {
            Seq::empty()
        },
    }
}

/// The elements at the places from `from` up to `to` of a scan that lie
/// directly in the node numbered `parent`, in order.
pub open spec fn elements_in(scan: Seq<ScannedV>, parent: usize, from: int, to: int) -> Seq<
    XmlNodeV,
>
    decreases scan.len() - from, to - from + 1,
{
    if 0 <= from < to <= scan.len() {
        let head = elements_in(scan, parent, from, to - 1);
        if scan[to - 1].2 && scan[to - 1].1 == Some(parent) {
            head.push(element_at(scan, to - 1))
        } else {
            head
        }
    } else {
        Seq::empty()
    }
}

/// The place of the first element of a scan.
pub open spec fn first_element(scan: Seq<ScannedV>) -> Option<int>
    decreases scan.len(),
{
    if scan.len() == 0 {
        None
    } else {
        match first_element(scan.drop_last()) {
            Some(i) => Some(i),
            None => if scan.last().2 {
                Some(scan.len() - 1)
            } else {
                None
            },
        }
    }
}

/// The root element of a scan: its first element, with the elements in it.
/// A node lies in the element before it whose number it names as its parent.
pub open spec fn root_element(scan: Seq<ScannedV>) -> Result<XmlNodeV, Error> {
    match first_element(scan) {
        None => Err(Error::XmlParse),
        Some(i) => Ok(element_at(scan, i)),
    }
}

/// The root element of the document that `text` spells.
pub open spec fn document(text: Seq<char>) -> Result<XmlNodeV, Error> {
    match scanned(text) {
        None => Err(Error::XmlParse),
        Some(scan) => root_element(scan),
    }
}

/// What `first_element` returns is the place of the first element, and
/// `None` means that no node is an element.
pub proof fn lemma_first_element(scan: Seq<ScannedV>)
    ensures
        match first_element(scan) {
            Some(i) => 0 <= i < scan.len() && scan[i].2 && forall|j: int|
                0 <= j < i ==> !(#[trigger] scan[j]).2,
            None => forall|j: int| 0 <= j < scan.len() ==> !(#[trigger] scan[j]).2,
        },
    decreases scan.len(),
{
    if scan.len() > 0 {
        let t = scan.drop_last();
        lemma_first_element(t);
        match first_element(t) {
            Some(i) => {
                assert(scan[i] == t[i]);
                assert forall|j: int| 0 <= j < i implies !(#[trigger] scan[j]).2 by {
                    assert(scan[j] == t[j]);
                }
            },
            None => {
                assert forall|j: int| 0 <= j < scan.len() - 1 implies !(#[trigger] scan[j]).2 by {
                    assert(scan[j] == t[j]);
                }
            },
        }
    }
}

/// The element at the place `i` of a scan, with the elements in it.
pub fn build_element(scan: &Vec<Scanned>, i: usize) -> (r: XmlNode)
    requires
        i < scan.len(),
    ensures
        r@ == element_at(scan.deep_view(), i as int),
    decreases scan.len() - i,
{
    let ghost all = scan.deep_view();
    let mut children: Vec<XmlNode> = Vec::new();
    let parent = scan[i].0;
    let mut j: usize = i + 1;
    assert(children.deep_view() =~= elements_in(all, parent, i + 1, i + 1));
    while j < scan.len()
        invariant
            i < j <= scan.len(),
            all == scan.deep_view(),
            parent == scan@[i as int].0,
            children.deep_view() == elements_in(all, parent, i + 1, j as int),
        decreases scan.len() - j,
    {
        let ghost before = children.deep_view();
        assert(all[j as int] == scan@[j as int].deep_view());
        let inside = match scan[j].1 {
            Some(p) => p == parent,
            None => false,
        };
        if scan[j].2 && inside {
            let child = build_element(scan, j);
            children.push(child);
            assert(children.deep_view() =~= before.push(child@));
        }
        j += 1;
    }
    assert(all[i as int] == scan@[i as int].deep_view());
    let r = XmlNode {
        tag: scan[i].3.clone(),
        attributes: dup_attributes(&scan[i].4),
        children,
    };
    assert(r@.children =~= r.children.deep_view());
    assert(r@.attributes =~= scan@[i as int].4.deep_view());
    r
}

/// The root element of a scan. A scan without an element is refused.
pub fn root_of(scan: &Vec<Scanned>) -> (r: Result<XmlNode, Error>)
    ensures
        match r {
            Ok(node) => root_element(scan.deep_view()) == Ok::<XmlNodeV, Error>(node@),
            Err(e) => root_element(scan.deep_view()) == Err::<XmlNodeV, Error>(e),
        },
{
    let ghost all = scan.deep_view();
    let mut i: usize = 0;
    while i < scan.len()
        invariant
            i <= scan.len(),
            all == scan.deep_view(),
            forall|j: int| 0 <= j < i ==> !(#[trigger] all[j]).2,
        decreases scan.len() - i,
    {
        assert(all[i as int] == scan@[i as int].deep_view());
        if scan[i].2 {
            proof {
                lemma_first_element(all);
            }
            return Ok(build_element(scan, i));
        }
        i += 1;
    }
    proof {
        lemma_first_element(all);
    }
    Err(Error::XmlParse)
}

impl XmlNode {
    /// The root element of the document that `text` spells, with all the
    /// elements in it. Text, comments and instructions are left out. A text
    /// that is no document is refused.
    pub fn parse(text: &str) -> (r: Result<XmlNode, Error>)
        ensures
            match r {
                Ok(node) => document(text@) == Ok::<XmlNodeV, Error>(node@),
                Err(e) => document(text@) == Err::<XmlNodeV, Error>(e),
            },
    {
        match scan(text) {
            Some(nodes) => root_of(&nodes),
            None => Err(Error::XmlParse),
        }
    }
}

} // verus!

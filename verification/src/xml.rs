use vstd::prelude::*;
use vstd::std_specs::vec::axiom_vec_index_decreases;
use vstd::string::*;
use crate::dict::{entries_view, lookup, position_in};
use crate::error::Error;

verus! {

/// An element of a document: its tag, its attributes in the order in which
/// they are written, and the elements inside it. Text and comments are not
/// part of the tree.
#[derive(Debug, PartialEq)]
pub struct XmlNode {
    pub tag: String,
    pub attributes: Vec<(String, String)>,
    pub children: Vec<XmlNode>,
}

pub struct XmlNodeV {
    pub tag: Seq<char>,
    pub attributes: Seq<(Seq<char>, Seq<char>)>,
    pub children: Seq<XmlNodeV>,
}

impl XmlNode {
    pub open spec fn model(&self) -> XmlNodeV
        decreases self,
    {
        XmlNodeV {
            tag: self.tag@,
            attributes: entries_view(self.attributes@),
            children: Seq::new(
                self.children.len() as nat,
                |i: int|
                    if 0 <= i < self.children.len() {
                        self.children[i].model()
                    } else {
                        arbitrary()
                    },
            ),
        }
    }
}

impl DeepView for XmlNode {
    type V = XmlNodeV;

    open spec fn deep_view(&self) -> XmlNodeV {
        self.model()
    }
}

impl View for XmlNode {
    type V = XmlNodeV;

    open spec fn view(&self) -> XmlNodeV {
        self.model()
    }
}

/// The value of the digits of `s` read as a decimal number.
pub open spec fn digits_value(s: Seq<char>) -> int
    decreases s.len(),
{
    if s.len() == 0 {
        0
    } else {
        digits_value(s.drop_last()) * 10 + (s.last() as int - '0' as int)
    }
}

/// Whether `s` holds decimal digits only.
pub open spec fn all_digits(s: Seq<char>) -> bool {
    forall|i: int| 0 <= i < s.len() ==> '0' <= #[trigger] s[i] <= '9'
}

/// The digits of a written integer, after its sign if it has one.
pub open spec fn unsigned_part(s: Seq<char>) -> Seq<char> {
    if s.len() > 0 && (s[0] == '-' || s[0] == '+') {
        s.subrange(1, s.len() as int)
    } else {
        s
    }
}

/// The integer that `s` spells: a sign or none, then one decimal digit or
/// more, and a value that a signed 64-bit integer holds.
pub open spec fn int_of(s: Seq<char>) -> Option<int> {
    let body = unsigned_part(s);
    let value = if s.len() > 0 && s[0] == '-' {
        -digits_value(body)
    } else {
        digits_value(body)
    };
    if body.len() > 0 && all_digits(body) && i64::MIN <= value <= i64::MAX {
        Some(value)
    } else {
        None
    }
}

/// More digits never make a number smaller.
pub proof fn lemma_digits_grow(s: Seq<char>, n: int)
    requires
        all_digits(s),
        0 <= n <= s.len(),
    ensures
        0 <= digits_value(s.subrange(0, n)) <= digits_value(s),
    decreases s.len() - n,
{
    lemma_digits_nonnegative(s.subrange(0, n));
    if n < s.len() {
        let t = s.subrange(0, n + 1);
        assert(t.drop_last() =~= s.subrange(0, n));
        assert(t.last() == s[n]);
        lemma_digits_grow(s, n + 1);
    } else {
        assert(s.subrange(0, n) =~= s);
    }
}

pub proof fn lemma_digits_nonnegative(s: Seq<char>)
    requires
        all_digits(s),
    ensures
        0 <= digits_value(s),
    decreases s.len(),
{
    if s.len() > 0 {
        lemma_digits_nonnegative(s.drop_last());
    }
}

/// Reads a decimal integer.
pub fn parse_int(s: &str) -> (r: Option<i64>)
    ensures
        match r {
            Some(v) => int_of(s@) == Some(v as int),
            None => int_of(s@).is_none(),
        },
{
    let n = s.unicode_len();
    if n == 0 {
        return None;
    }
    let first = s.get_char(0);
    let negative = first == '-';
    let start: usize = if first == '-' || first == '+' {
        1
    } else {
        0
    };
    if start == n {
        return None;
    }
    let ghost body = unsigned_part(s@);
    assert(body =~= s@.subrange(start as int, n as int));
    let mut acc: i64 = 0;
    let mut i: usize = start;
    assert(body.subrange(0, 0) =~= Seq::<char>::empty());
    while i < n
        invariant
            start <= i <= n,
            n == s@.len(),
            n > 0,
            negative == (s@[0] == '-'),
            body == unsigned_part(s@),
            body == s@.subrange(start as int, n as int),
            all_digits(body.subrange(0, i - start)),
            negative ==> acc as int == -digits_value(body.subrange(0, i - start)),
            !negative ==> acc as int == digits_value(body.subrange(0, i - start)),
        decreases n - i,
    {
        let c = s.get_char(i);
        let ghost head = body.subrange(0, i - start);
        let ghost next = body.subrange(0, i - start + 1);
        assert(next.drop_last() =~= head);
        assert(next.last() == c);
        if !(c >= '0' && c <= '9') {
            assert(!('0' <= body[i - start] <= '9'));
            return None;
        }
        let d: i64 = (c as u32 - '0' as u32) as i64;
        proof {
            lemma_digits_nonnegative(head);
        }
        if negative {
            if acc < (i64::MIN + d) / 10 {
                proof {
                    assert(digits_value(next) > -(i64::MIN as int));
                    if all_digits(body) {
                        lemma_digits_grow(body, i - start + 1);
                    }
                }
                return None;
            }
            acc = acc * 10 - d;
        } else {
            if acc > (i64::MAX - d) / 10 {
                proof {
                    assert(digits_value(next) > i64::MAX as int);
                    if all_digits(body) {
                        lemma_digits_grow(body, i - start + 1);
                    }
                }
                return None;
            }
            acc = acc * 10 + d;
        }
        assert(all_digits(next)) by {
            assert forall|j: int| 0 <= j < next.len() implies '0' <= #[trigger] next[j] <= '9' by {
                if j < next.len() - 1 {
                    assert(next[j] == head[j]);
                }
            }
        }
        i += 1;
    }
    assert(body.subrange(0, n - start) =~= body);
    Some(acc)
}

impl XmlNode {
    /// The value of the first attribute named `name`.
    pub open spec fn attr(&self, name: Seq<char>) -> Option<Seq<char>> {
        lookup(entries_view(self.attributes@), name)
    }

    /// The value of the attribute `name`, or `default` where the element has
    /// no such attribute.
    pub open spec fn attr_or(&self, name: Seq<char>, default: Seq<char>) -> Seq<char> {
        match self.attr(name) {
            Some(s) => s,
            None => default,
        }
    }

    /// The integer that the attribute `name` spells, or `default` where the
    /// element has no such attribute; `None` where it has one that spells no
    /// integer.
    pub open spec fn int_attr_or(&self, name: Seq<char>, default: int) -> Option<int> {
        match self.attr(name) {
            Some(s) => int_of(s),
            None => Some(default),
        }
    }

    /// Whether the attribute `name` is absent or spells an integer.
    pub open spec fn int_attr_ok(&self, name: Seq<char>) -> bool {
        match self.attr(name) {
            Some(s) => int_of(s) is Some,
            None => true,
        }
    }

    /// The integer that the attribute `name` spells, if the element has it.
    pub open spec fn int_attr(&self, name: Seq<char>) -> Option<int> {
        match self.attr(name) {
            Some(s) => int_of(s),
            None => None,
        }
    }

    /// The value of the first attribute named `name`.
    pub fn attribute(&self, name: &str) -> (r: Option<&String>)
        ensures
            r.deep_view() == self.attr(name@),
    {
        match position_in(&self.attributes, name) {
            Some(i) => Some(&self.attributes[i].1),
            None => None,
        }
    }

    /// The value of an attribute that the element must have.
    pub fn required(&self, name: &str) -> (r: Result<String, Error>)
        ensures
            match r {
                Ok(s) => self.attr(name@) == Some(s@),
                Err(e) => self.attr(name@).is_none() && e == Error::XmlParse,
            },
    {
        match self.attribute(name) {
            Some(s) => Ok(s.clone()),
            None => Err(Error::XmlParse),
        }
    }

    /// The value of an attribute that the element may have.
    pub fn optional(&self, name: &str) -> (r: Option<String>)
        ensures
            r.deep_view() == self.attr(name@),
    {
        match self.attribute(name) {
            Some(s) => Some(s.clone()),
            None => None,
        }
    }

    /// The value of an attribute, or `default` where the element has none.
    pub fn or_default(&self, name: &str, default: &str) -> (r: String)
        ensures
            r@ == self.attr_or(name@, default@),
    {
        match self.attribute(name) {
            Some(s) => s.clone(),
            None => default.to_owned(),
        }
    }

    /// The integer that an attribute spells, or `default` where the element
    /// has no such attribute.
    pub fn int_or(&self, name: &str, default: i64) -> (r: Result<i64, Error>)
        ensures
            match r {
                Ok(v) => self.int_attr_or(name@, default as int) == Some(v as int),
                Err(e) => self.int_attr_or(name@, default as int).is_none() && e
                    == Error::XmlParse,
            },
    {
        match self.attribute(name) {
            Some(s) => match parse_int(s.as_str()) {
                Some(v) => Ok(v),
                None => Err(Error::XmlParse),
            },
            None => Ok(default),
        }
    }

    /// The integer that an attribute spells, if the element has it.
    pub fn optional_int(&self, name: &str) -> (r: Result<Option<i64>, Error>)
        ensures
            match r {
                Ok(Some(v)) => self.int_attr(name@) == Some(v as int),
                Ok(None) => self.attr(name@).is_none(),
                Err(e) => !self.int_attr_ok(name@) && e == Error::XmlParse,
            },
    {
        match self.attribute(name) {
            Some(s) => match parse_int(s.as_str()) {
                Some(v) => Ok(Some(v)),
                None => Err(Error::XmlParse),
            },
            None => Ok(None),
        }
    }
}

/// Copies of the attributes.
pub fn dup_attributes(v: &Vec<(String, String)>) -> (r: Vec<(String, String)>)
    ensures
        r.deep_view() == v.deep_view(),
{
    let mut out: Vec<(String, String)> = Vec::new();
    let mut i: usize = 0;
    while i < v.len()
        invariant
            i <= v.len(),
            out@.len() == i,
            forall|j: int|
                0 <= j < i ==> (#[trigger] out@[j]).0@ == v@[j].0@ && out@[j].1@ == v@[j].1@,
        decreases v.len() - i,
    {
        out.push((v[i].0.clone(), v[i].1.clone()));
        i += 1;
    }
    assert(out.deep_view() =~= v.deep_view());
    out
}

impl XmlNode {
    /// A copy of the element and of all the elements in it.
    pub fn dup(&self) -> (r: Self)
        ensures
            r@ == self@,
        decreases self,
    {
        let mut children: Vec<XmlNode> = Vec::new();
        let mut i: usize = 0;
        while i < self.children.len()
            invariant
                i <= self.children@.len(),
                children@.len() == i,
                forall|j: int| 0 <= j < i ==> (#[trigger] children@[j])@ == self.children@[j]@,
            decreases self.children@.len() - i,
        {
            proof {
                assert(decreases_to!(*self => self.children));
                axiom_vec_index_decreases(self.children, i as int);
            }
            children.push(self.children[i].dup());
            i += 1;
        }
        let r = XmlNode {
            tag: self.tag.clone(),
            attributes: dup_attributes(&self.attributes),
            children,
        };
        assert(r@.children =~= self@.children);
        assert(entries_view(r.attributes@) =~= r.attributes.deep_view());
        assert(entries_view(self.attributes@) =~= self.attributes.deep_view());
        r
    }
}

impl Clone for XmlNode {
    fn clone(&self) -> (r: Self)
        ensures
            r@ == self@,
    {
        self.dup()
    }
}

} // verus!

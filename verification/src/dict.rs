use vstd::prelude::*;
use crate::text::{same, views};

verus! {

/// The position of the first entry of `s` whose key is `key`.
pub open spec fn find<T>(s: Seq<(Seq<char>, T)>, key: Seq<char>) -> Option<int>
    decreases s.len(),
{
    if s.len() == 0 {
        None
    } else {
        match find(s.drop_last(), key) {
            Some(i) => Some(i),
            None => if s.last().0 == key {
                Some(s.len() - 1)
            } else {
                None
            },
        }
    }
}

/// The value that `s` holds for `key`.
pub open spec fn lookup<T>(s: Seq<(Seq<char>, T)>, key: Seq<char>) -> Option<T> {
    match find(s, key) {
        Some(i) => Some(s[i].1),
        None => None,
    }
}

/// `s` with `value` for `key`: in place of the old value if there is one, at
/// the end otherwise.
pub open spec fn put<T>(s: Seq<(Seq<char>, T)>, key: Seq<char>, value: T) -> Seq<(Seq<char>, T)> {
    match find(s, key) {
        Some(i) => s.update(i, (key, value)),
        None => s.push((key, value)),
    }
}

/// `s` after every entry of `other` has been put into it, in order.
pub open spec fn put_all<T>(s: Seq<(Seq<char>, T)>, other: Seq<(Seq<char>, T)>) -> Seq<
    (Seq<char>, T),
>
    decreases other.len(),
{
    if other.len() == 0 {
        s
    } else {
        put(put_all(s, other.drop_last()), other.last().0, other.last().1)
    }
}

/// The keys of `s`, in order.
pub open spec fn keys<T>(s: Seq<(Seq<char>, T)>) -> Seq<Seq<char>> {
    Seq::new(s.len(), |i: int| s[i].0)
}

/// No key occurs twice in `s`.
pub open spec fn distinct<T>(s: Seq<(Seq<char>, T)>) -> bool {
    forall|i: int, j: int| 0 <= i < j < s.len() ==> s[i].0 != s[j].0
}

/// What `find` returns is the first position of the key, and `None` means
/// that the key is nowhere.
pub proof fn lemma_find<T>(s: Seq<(Seq<char>, T)>, key: Seq<char>)
    ensures
        match find(s, key) {
            Some(i) => 0 <= i < s.len() && s[i].0 == key && forall|j: int|
                0 <= j < i ==> s[j].0 != key,
            None => forall|j: int| 0 <= j < s.len() ==> s[j].0 != key,
        },
    decreases s.len(),
{
    if s.len() > 0 {
        let t = s.drop_last();
        lemma_find(t, key);
        match find(t, key) {
            Some(i) => {
                assert(s[i] == t[i]);
                assert forall|j: int| 0 <= j < i implies s[j].0 != key by {
                    assert(s[j] == t[j]);
                }
            },
            None => {
                assert forall|j: int| 0 <= j < s.len() - 1 implies s[j].0 != key by {
                    assert(s[j] == t[j]);
                }
            },
        }
    }
}

/// The first position of a key, said the other way round.
pub proof fn lemma_find_first<T>(s: Seq<(Seq<char>, T)>, key: Seq<char>, i: int)
    requires
        0 <= i < s.len(),
        s[i].0 == key,
        forall|j: int| 0 <= j < i ==> s[j].0 != key,
    ensures
        find(s, key) == Some(i),
{
    lemma_find(s, key);
}

/// A key that is nowhere is not found.
pub proof fn lemma_find_none<T>(s: Seq<(Seq<char>, T)>, key: Seq<char>)
    requires
        forall|j: int| 0 <= j < s.len() ==> s[j].0 != key,
    ensures
        find(s, key).is_none(),
{
    lemma_find(s, key);
}

/// Putting keeps keys distinct, and afterwards the key is found with the new
/// value while every other key is found as before.
pub proof fn lemma_put<T>(s: Seq<(Seq<char>, T)>, key: Seq<char>, value: T, other: Seq<char>)
    ensures
        distinct(s) ==> distinct(put(s, key, value)),
        lookup(put(s, key, value), key) == Some(value),
        other != key ==> lookup(put(s, key, value), other) == lookup(s, other),
{
    let t = put(s, key, value);
    lemma_find(s, key);
    lemma_find(s, other);
    match find(s, key) {
        Some(i) => {
            assert(t[i].0 == key);
            assert forall|j: int| 0 <= j < t.len() implies t[j].0 == (if j == i {
                key
            } else {
                s[j].0
            }) by {}
            lemma_find_first(t, key, i);
            if other != key {
                match find(s, other) {
                    Some(k) => {
                        assert(t[k] == s[k]);
                        lemma_find_first(t, other, k);
                    },
                    None => {
                        lemma_find_none(t, other);
                    },
                }
            }
        },
        None => {
            let n = s.len() as int;
            assert(t[n].0 == key);
            assert forall|j: int| 0 <= j < n implies t[j] == s[j] by {}
            lemma_find_first(t, key, n);
            if other != key {
                match find(s, other) {
                    Some(k) => {
                        assert(t[k] == s[k]);
                        lemma_find_first(t, other, k);
                    },
                    None => {
                        lemma_find_none(t, other);
                    },
                }
            }
        },
    }
}

/// An ordered dictionary from names to values. An entry keeps the place at
/// which its key first came in; a later value for the same key replaces the
/// earlier one there.
#[derive(Clone, Debug, PartialEq)]
pub struct Dict<V> {
    pub entries: Vec<(String, V)>,
}

/// What a list of entries holds: each key with the model of its value.
pub open spec fn entries_view<V: DeepView>(entries: Seq<(String, V)>) -> Seq<(Seq<char>, V::V)> {
    Seq::new(entries.len(), |i: int| (entries[i].0@, entries[i].1.deep_view()))
}

impl<V: DeepView> DeepView for Dict<V> {
    type V = Seq<(Seq<char>, V::V)>;

    open spec fn deep_view(&self) -> Self::V {
        entries_view(self.entries@)
    }
}

/// Where `key` stands in a list of entries.
pub fn position_in<V: DeepView>(entries: &Vec<(String, V)>, key: &str) -> (r: Option<usize>)
    ensures
        match r {
            Some(i) => find(entries_view(entries@), key@) == Some(i as int) && i < entries@.len(),
            None => find(entries_view(entries@), key@).is_none(),
        },
{
    let mut i: usize = 0;
    while i < entries.len()
        invariant
            i <= entries@.len(),
            forall|j: int| 0 <= j < i ==> entries_view(entries@)[j].0 != key@,
        decreases entries@.len() - i,
    {
        if same(entries[i].0.as_str(), key) {
            proof {
                lemma_find(entries_view(entries@), key@);
                assert(entries_view(entries@)[i as int].0 == key@);
            }
            return Some(i);
        }
        i += 1;
    }
    proof {
        lemma_find(entries_view(entries@), key@);
    }
    None
}

/// Putting entries keeps keys distinct.
pub proof fn lemma_put_all_distinct<T>(s: Seq<(Seq<char>, T)>, other: Seq<(Seq<char>, T)>)
    requires
        distinct(s),
    ensures
        distinct(put_all(s, other)),
    decreases other.len(),
{
    if other.len() > 0 {
        lemma_put_all_distinct(s, other.drop_last());
        lemma_put(put_all(s, other.drop_last()), other.last().0, other.last().1, other.last().0);
    }
}

impl<V: DeepView> Dict<V> {
    /// Whether no key stands twice. A dictionary that is made empty and
    /// filled through `insert` and `absorb` is so.
    pub open spec fn wf(&self) -> bool {
        distinct(self.deep_view())
    }

    pub fn new() -> (r: Self)
        ensures
            r.deep_view() == Seq::<(Seq<char>, V::V)>::empty(),
            r.entries@.len() == 0,
            r.wf(),
    {
        let r = Dict { entries: Vec::new() };
        assert(r.deep_view() =~= Seq::<(Seq<char>, V::V)>::empty());
        r
    }

    pub fn len(&self) -> (r: usize)
        ensures
            r == self.deep_view().len(),
            r == self.entries@.len(),
    {
        self.entries.len()
    }

    /// Where `key` stands.
    pub fn position(&self, key: &str) -> (r: Option<usize>)
        ensures
            match r {
                Some(i) => find(self.deep_view(), key@) == Some(i as int) && i < self.entries@.len(),
                None => find(self.deep_view(), key@).is_none(),
            },
    {
        position_in(&self.entries, key)
    }

    pub fn contains_key(&self, key: &str) -> (r: bool)
        ensures
            r == find(self.deep_view(), key@).is_some(),
    {
        self.position(key).is_some()
    }

    pub fn get(&self, key: &str) -> (r: Option<&V>)
        ensures
            r.deep_view() == lookup(self.deep_view(), key@),
            match r {
                Some(v) => find(self.deep_view(), key@) is Some && *v == self.entries@[find(
                    self.deep_view(),
                    key@,
                )->0].1,
                None => true,
            },
    {
        match self.position(key) {
            Some(i) => {
                proof {
                    lemma_find(self.deep_view(), key@);
                }
                Some(&self.entries[i].1)
            },
            None => None,
        }
    }

    /// Sets the value of `key`, where the key stands already or else at the end.
    pub fn insert(&mut self, key: String, value: V)
        ensures
            final(self).deep_view() == put(old(self).deep_view(), key@, value.deep_view()),
            old(self).wf() ==> final(self).wf(),
    {
        let ghost before = self.deep_view();
        proof {
            lemma_put(before, key@, value.deep_view(), key@);
        }
        match self.position(key.as_str()) {
            Some(i) => {
                self.entries.set(i, (key, value));
                assert(self.deep_view() =~= before.update(i as int, (key@, value.deep_view())));
            },
            None => {
                self.entries.push((key, value));
                assert(self.deep_view() =~= before.push((key@, value.deep_view())));
            },
        }
    }

    /// The keys, in order.
    pub fn keys(&self) -> (r: Vec<String>)
        ensures
            views(r@) == keys(self.deep_view()),
    {
        let mut out: Vec<String> = Vec::new();
        let mut i: usize = 0;
        while i < self.entries.len()
            invariant
                i <= self.entries@.len(),
                out@.len() == i,
                forall|j: int| 0 <= j < i ==> out@[j]@ == self.entries@[j].0@,
            decreases self.entries@.len() - i,
        {
            out.push(self.entries[i].0.clone());
            i += 1;
        }
        assert(views(out@) =~= keys(self.deep_view()));
        out
    }

    /// Puts every entry of `other` into this dictionary, in order.
    pub fn absorb(&mut self, other: Dict<V>)
        ensures
            final(self).deep_view() == put_all(old(self).deep_view(), other.deep_view()),
            old(self).wf() ==> final(self).wf(),
    {
        proof {
            if self.wf() {
                lemma_put_all_distinct(self.deep_view(), other.deep_view());
            }
        }
        let ghost all = other.deep_view();
        let ghost n = all.len() as int;
        let mut rest = other.entries;
        let mut stack: Vec<(String, V)> = Vec::new();
        while rest.len() > 0
            invariant
                rest@.len() + stack@.len() == n,
                n == all.len(),
                forall|j: int|
                    0 <= j < rest@.len() ==> (#[trigger] rest@[j]).0@ == all[j].0
                        && rest@[j].1.deep_view() == all[j].1,
                forall|j: int|
                    0 <= j < stack@.len() ==> (#[trigger] stack@[j]).0@ == all[n - 1 - j].0
                        && stack@[j].1.deep_view() == all[n - 1 - j].1,
            decreases rest@.len(),
        {
            let ghost k = stack@.len() as int;
            let e = rest.pop().unwrap();
            assert(e.0@ == all[n - 1 - k].0 && e.1.deep_view() == all[n - 1 - k].1);
            stack.push(e);
        }
        assert(all.subrange(0, 0) =~= Seq::<(Seq<char>, V::V)>::empty());
        while stack.len() > 0
            invariant
                stack@.len() <= n,
                n == all.len(),
                forall|j: int|
                    0 <= j < stack@.len() ==> (#[trigger] stack@[j]).0@ == all[n - 1 - j].0
                        && stack@[j].1.deep_view() == all[n - 1 - j].1,
                self.deep_view() == put_all(
                    old(self).deep_view(),
                    all.subrange(0, n - stack@.len()),
                ),
            decreases stack@.len(),
        {
            let ghost i = n - stack@.len();
            let e = stack.pop().unwrap();
            assert(e.0@ == all[i].0 && e.1.deep_view() == all[i].1);
            assert(all.subrange(0, i + 1).drop_last() =~= all.subrange(0, i));
            assert(all.subrange(0, i + 1).last() == all[i]);
            self.insert(e.0, e.1);
        }
        assert(all.subrange(0, n) =~= all);
    }

    pub fn key_at(&self, i: usize) -> (r: &String)
        requires
            i < self.entries@.len(),
        ensures
            r@ == self.deep_view()[i as int].0,
            *r == self.entries@[i as int].0,
    {
        &self.entries[i].0
    }

    pub fn value_at(&self, i: usize) -> (r: &V)
        requires
            i < self.entries@.len(),
        ensures
            r.deep_view() == self.deep_view()[i as int].1,
            *r == self.entries@[i as int].1,
    {
        &self.entries[i].1
    }
}

} // verus!

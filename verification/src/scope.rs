use vstd::prelude::*;
use crate::types::{Types, ValV};
use crate::textops::str_eq;

verus! {

/// A frame: names bound to values, with a constness mark. Backed by a
/// vector with pairwise distinct names, abstracted as a map from the
/// name's characters to the value's shadow.
pub struct NamedMap<V> {
    entries: Vec<(String, V)>,
}

/// The map a run of entries denotes; later entries would win, though
/// well-formed frames never hold a name twice.
pub open spec fn entries_map<V: View>(s: Seq<(String, V)>) -> Map<Seq<char>, V::V>
    decreases s.len(),
{
    if s.len() == 0 {
        Map::empty()
    } else {
        entries_map(s.drop_last()).insert(s.last().0@, s.last().1@)
    }
}

pub open spec fn entries_has<V: View>(s: Seq<(String, V)>, k: Seq<char>) -> bool {
    exists|i: int| 0 <= i < s.len() && (#[trigger] s[i]).0@ == k
}

pub proof fn lemma_entries_has<V: View>(s: Seq<(String, V)>, k: Seq<char>)
    ensures
        entries_map(s).contains_key(k) == entries_has(s, k),
    decreases s.len(),
{
    if s.len() == 0 {
    } else {
        lemma_entries_has(s.drop_last(), k);
        if s.last().0@ == k {
            assert(s[s.len() - 1].0@ == k);
        } else {
            if entries_has(s.drop_last(), k) {
                let i = choose|i: int| 0 <= i < s.len() - 1 && (#[trigger] s.drop_last()[i]).0@ == k;
                assert(s[i].0@ == k);
            }
            if entries_has(s, k) {
                let i = choose|i: int| 0 <= i < s.len() && (#[trigger] s[i]).0@ == k;
                assert(s.drop_last()[i] == s[i]);
            }
        }
    }
}

pub open spec fn entries_unique<V: View>(s: Seq<(String, V)>) -> bool {
    forall|i: int, j: int|
        0 <= i < j < s.len() ==> (#[trigger] s[i]).0@ != (#[trigger] s[j]).0@
}

pub proof fn lemma_entries_at<V: View>(s: Seq<(String, V)>, i: int)
    requires
        entries_unique(s),
        0 <= i < s.len(),
    ensures
        entries_map(s).contains_key(s[i].0@),
        entries_map(s)[s[i].0@] == s[i].1@,
    decreases s.len(),
{
    if i == s.len() - 1 {
    } else {
        assert(s.drop_last()[i] == s[i]);
        lemma_entries_at(s.drop_last(), i);
        assert(s[s.len() - 1].0@ != s[i].0@);
    }
}

pub proof fn lemma_entries_remove<V: View>(s: Seq<(String, V)>, i: int)
    requires
        entries_unique(s),
        0 <= i < s.len(),
    ensures
        entries_map(s.remove(i)) =~= entries_map(s).remove(s[i].0@),
    decreases s.len(),
{
    let k = s[i].0@;
    if i == s.len() - 1 {
        assert(s.remove(i) =~= s.drop_last());
        lemma_entries_has(s.drop_last(), k);
        assert(!entries_has(s.drop_last(), k)) by {
            if entries_has(s.drop_last(), k) {
                let j = choose|j: int|
                    0 <= j < s.len() - 1 && (#[trigger] s.drop_last()[j]).0@ == k;
                assert(s[j].0@ == k);
            }
        }
        assert(entries_map(s.drop_last()) =~= entries_map(s).remove(k));
    } else {
        assert(s.remove(i).drop_last() =~= s.drop_last().remove(i));
        assert(s.remove(i).last() == s.last());
        assert(forall|a: int, b: int|
            0 <= a < b < s.drop_last().len() ==> (#[trigger] s.drop_last()[a]).0@ != (
            #[trigger] s.drop_last()[b]).0@);
        lemma_entries_remove(s.drop_last(), i);
        assert(s.drop_last()[i] == s[i]);
        assert(s.last().0@ != k);
        assert(entries_map(s.remove(i)) =~= entries_map(s).remove(k));
    }
}

impl<V: View> NamedMap<V> {
    /// Names are pairwise distinct.
    pub closed spec fn wf(&self) -> bool {
        entries_unique(self.entries@)
    }
}

impl<V: View> View for NamedMap<V> {
    type V = Map<Seq<char>, V::V>;

    closed spec fn view(&self) -> Map<Seq<char>, V::V> {
        entries_map(self.entries@)
    }
}

impl<V: View> NamedMap<V> {
    pub fn new() -> (r: NamedMap<V>)
        ensures
            r@ == Map::<Seq<char>, V::V>::empty(),
            r.wf(),
    {
        NamedMap { entries: Vec::new() }
    }

    fn find_idx(&self, name: &str) -> (r: Option<usize>)
        ensures
            (match r {
                Some(i) => i < self.entries@.len() && self.entries@[i as int].0@ == name@,
                None => !entries_has(self.entries@, name@),
            }),
    {
        let mut i: usize = 0;
        while i < self.entries.len()
            invariant
                i <= self.entries@.len(),
                forall|j: int| 0 <= j < i ==> (#[trigger] self.entries@[j]).0@ != name@,
            decreases self.entries@.len() - i,
        {
            if str_eq(self.entries[i].0.as_str(), name) {
                return Some(i);
            }
            i = i + 1;
        }
        None
    }

    pub fn contains(&self, name: &str) -> (r: bool)
        ensures
            r == self@.contains_key(name@),
    {
        proof {
            lemma_entries_has(self.entries@, name@);
        }
        match self.find_idx(name) {
            Some(_) => true,
            None => false,
        }
    }

    /// The value bound to `name` in this frame alone.
    pub fn lookup(&self, name: &str) -> (r: Option<&V>)
        requires
            self.wf(),
        ensures
            (match r {
                Some(v) => self@.contains_key(name@) && v@ == self@[name@],
                None => !self@.contains_key(name@),
            }),
    {
        proof {
            lemma_entries_has(self.entries@, name@);
        }
        match self.find_idx(name) {
            Some(i) => {
                proof {
                    lemma_entries_at(self.entries@, i as int);
                }
                Some(&self.entries[i].1)
            },
            None => None,
        }
    }

    /// Binds `name`, replacing any earlier binding.
    pub fn bind(&mut self, name: String, value: V)
        requires
            old(self).wf(),
        ensures
            final(self)@ == old(self)@.insert(name@, value@),
            final(self).wf(),
    {
        let ghost pre = self.entries@;
        match self.find_idx(name.as_str()) {
            Some(i) => {
                proof {
                    lemma_entries_remove(pre, i as int);
                    lemma_entries_has(pre, name@);
                }
                self.entries.remove(i);
                let ghost mid = self.entries@;
                self.entries.push((name, value));
                proof {
                    assert(self.entries@.drop_last() =~= mid);
                    assert(entries_map(self.entries@) =~= pre_map_insert(pre, name@, value@));
                    assert(forall|j: int|
                        0 <= j < mid.len() ==> (#[trigger] mid[j]).0@ != name@) by {
                        assert(forall|j: int|
                            0 <= j < mid.len() ==> mid[j] == if j < i as int {
                                pre[j]
                            } else {
                                pre[j + 1]
                            });
                    }
                }
            },
            None => {
                self.entries.push((name, value));
                proof {
                    assert(self.entries@.drop_last() =~= pre);
                    assert(entries_map(self.entries@) =~= pre_map_insert(pre, name@, value@));
                }
            },
        }
    }

    /// Drops the binding of `name`; reports whether one existed.
    pub fn unbind(&mut self, name: &str) -> (r: bool)
        requires
            old(self).wf(),
        ensures
            final(self)@ == old(self)@.remove(name@),
            r == old(self)@.contains_key(name@),
            final(self).wf(),
    {
        let ghost pre = self.entries@;
        proof {
            lemma_entries_has(pre, name@);
        }
        match self.find_idx(name) {
            Some(i) => {
                proof {
                    lemma_entries_remove(pre, i as int);
                    lemma_entries_at(pre, i as int);
                }
                self.entries.remove(i);
                true
            },
            None => {
                proof {
                    assert(entries_map(pre).remove(name@) =~= entries_map(pre));
                }
                false
            },
        }
    }
}

/// Short name for the inserted shape, to keep the asserts above readable.
pub open spec fn pre_map_insert<V: View>(
    pre: Seq<(String, V)>,
    k: Seq<char>,
    v: V::V,
) -> Map<Seq<char>, V::V> {
    entries_map(pre).insert(k, v)
}

/// One lexical frame of the machine: the constant frame or a local
/// frame. Lookups fall back from the local frame to the constants.
pub struct Scope {
    vars: NamedMap<(Types, bool)>,
}

impl View for Scope {
    type V = Map<Seq<char>, (ValV, bool)>;

    closed spec fn view(&self) -> Map<Seq<char>, (ValV, bool)> {
        self.vars@
    }
}

impl Scope {
    pub closed spec fn wf(&self) -> bool {
        self.vars.wf()
    }

    pub fn new() -> (r: Scope)
        ensures
            r@ == Map::<Seq<char>, (ValV, bool)>::empty(),
            r.wf(),
    {
        Scope { vars: NamedMap::new() }
    }

    pub fn exist(&self, name: &str) -> (r: bool)
        ensures
            r == self@.contains_key(name@),
    {
        self.vars.contains(name)
    }

    /// A binding of this frame alone.
    pub fn get_local(&self, name: &str) -> (r: Option<&(Types, bool)>)
        requires
            self.wf(),
        ensures
            (match r {
                Some(v) => self@.contains_key(name@) && v@ == self@[name@],
                None => !self@.contains_key(name@),
            }),
    {
        self.vars.lookup(name)
    }

    /// Resolution order of the machine: this frame first, then the
    /// constant frame.
    pub fn get<'a>(&'a self, consts: &'a Scope, name: &str) -> (r: Option<&'a (Types, bool)>)
        requires
            self.wf(),
            consts.wf(),
        ensures
            (match r {
                Some(v) => if self@.contains_key(name@) {
                    v@ == self@[name@]
                } else {
                    consts@.contains_key(name@) && v@ == consts@[name@]
                },
                None => !self@.contains_key(name@) && !consts@.contains_key(name@),
            }),
    {
        match self.vars.lookup(name) {
            Some(v) => Some(v),
            None => consts.vars.lookup(name),
        }
    }

    pub fn declare(&mut self, name: String, value: Types, is_const: bool)
        requires
            old(self).wf(),
        ensures
            final(self)@ == old(self)@.insert(name@, (value@, is_const)),
            final(self).wf(),
    {
        self.vars.bind(name, (value, is_const));
    }

    pub fn remove(&mut self, name: &str) -> (r: bool)
        requires
            old(self).wf(),
        ensures
            final(self)@ == old(self)@.remove(name@),
            r == old(self)@.contains_key(name@),
            final(self).wf(),
    {
        self.vars.unbind(name)
    }
}

} // verus!

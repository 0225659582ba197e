//! A string-to-string mapping with unique keys, kept in insertion order.
//!
//! Label sets, annotations and the flag listing are all such mappings on
//! the wire; its mathematical model is the finite map from key text to
//! value text, with a later binding for the same key replacing the
//! earlier one.

use vstd::prelude::*;

use crate::text::str_eq;

verus! {

/// A mapping from label or flag names to their values.
#[derive(Debug, PartialEq)]
pub struct StringMap {
    /// The bindings in insertion order; methods keep the keys distinct.
    pub entries: Vec<(String, String)>,
}

/// The map an entry list denotes: later entries win.
pub open spec fn map_of(es: Seq<(String, String)>) -> Map<Seq<char>, Seq<char>>
    decreases es,
{
    if es.len() == 0 {
        Map::empty()
    } else {
        map_of(es.drop_last()).insert(es.last().0@, es.last().1@)
    }
}

/// Whether some entry has key text `k`.
pub open spec fn has_key(es: Seq<(String, String)>, k: Seq<char>) -> bool {
    exists|i: int| 0 <= i < es.len() && (#[trigger] es[i]).0@ == k
}

pub proof fn lemma_map_of_dom(es: Seq<(String, String)>)
    ensures
        forall|k: Seq<char>| #[trigger] map_of(es).dom().contains(k) <==> has_key(es, k),
    decreases es,
{
    if es.len() > 0 {
        let dl = es.drop_last();
        lemma_map_of_dom(dl);
        assert(forall|j: int| 0 <= j < dl.len() ==> #[trigger] dl[j] == es[j]);
        assert forall|k: Seq<char>| #[trigger] map_of(es).dom().contains(k) implies has_key(es, k)
        by {
            if es.last().0@ == k {
                assert((es[es.len() - 1]).0@ == k);
            } else {
                assert(map_of(dl).dom().contains(k));
                assert(has_key(dl, k));
                let i = choose|i: int| 0 <= i < dl.len() && (#[trigger] dl[i]).0@ == k;
                assert((es[i]).0@ == k);
            }
        }
        assert forall|k: Seq<char>| has_key(es, k) implies #[trigger] map_of(es).dom().contains(k)
        by {
            let i = choose|i: int| 0 <= i < es.len() && (#[trigger] es[i]).0@ == k;
            if i < es.len() - 1 {
                assert(dl[i] == es[i]);
                assert(has_key(dl, k));
                assert(map_of(dl).dom().contains(k));
            } else {
                assert(k == es.last().0@);
            }
        }
    }
}

/// No two entries share a key.
pub open spec fn unique_keys(es: Seq<(String, String)>) -> bool {
    forall|i: int, j: int|
        0 <= i < j < es.len() ==> (#[trigger] es[i]).0@ != (#[trigger] es[j]).0@
}

pub proof fn lemma_map_of_index(es: Seq<(String, String)>)
    requires
        unique_keys(es),
    ensures
        forall|i: int| 0 <= i < es.len() ==> map_of(es)[(#[trigger] es[i]).0@] == es[i].1@,
    decreases es,
{
    if es.len() > 0 {
        assert(unique_keys(es.drop_last())) by {
            assert forall|i: int, j: int| 0 <= i < j < es.drop_last().len() implies (
            #[trigger] es.drop_last()[i]).0@ != (#[trigger] es.drop_last()[j]).0@ by {
                assert(es.drop_last()[i] == es[i] && es.drop_last()[j] == es[j]);
            }
        }
        lemma_map_of_index(es.drop_last());
        assert forall|i: int| 0 <= i < es.len() implies map_of(es)[(#[trigger] es[i]).0@]
            == es[i].1@ by {
            if i < es.len() - 1 {
                assert(es.drop_last()[i] == es[i]);
                assert(es[i].0@ != es[es.len() - 1].0@);
            }
        }
    }
}

impl StringMap {
    /// Keys are pairwise distinct.
    pub open spec fn wf(&self) -> bool {
        unique_keys(self.entries@)
    }

    pub open spec fn entry_seq(&self) -> Seq<(String, String)> {
        self.entries@
    }

    pub fn new() -> (r: StringMap)
        ensures
            r@ == Map::<Seq<char>, Seq<char>>::empty(),
            r.wf(),
            r.entry_seq().len() == 0,
    {
        StringMap { entries: Vec::new() }
    }

    /// Binds `key` to `value`, replacing any earlier binding in place.
    #[verifier::loop_isolation(false)]
    pub fn insert(&mut self, key: String, value: String)
        requires
            old(self).wf(),
        ensures
            final(self).wf(),
            final(self)@ == old(self)@.insert(key@, value@),
    {
        let ghost es0 = self.entries@;
        let mut i: usize = 0;
        while i < self.entries.len()
            invariant
                self.entries@ == es0,
                i <= es0.len(),
                forall|k: int| 0 <= k < i ==> (#[trigger] es0[k]).0@ != key@,
            decreases self.entries.len() - i,
        {
            if str_eq(self.entries[i].0.as_str(), key.as_str()) {
                self.entries.remove(i);
                self.entries.insert(i, (key, value));
                proof {
                    assert(self.entries@ =~= es0.update(i as int, (key, value)));
                    lemma_map_of_update(es0, i as int, key, value);
                }
                return ;
            }
            i = i + 1;
        }
        self.entries.push((key, value));
        proof {
            assert(self.entries@.drop_last() =~= es0);
            assert(!has_key(es0, key@));
            assert forall|a: int, b: int| 0 <= a < b < self.entries@.len() implies (
            #[trigger] self.entries@[a]).0@ != (#[trigger] self.entries@[b]).0@ by {
                if b == self.entries@.len() - 1 {
                    assert(es0[a] == self.entries@[a]);
                }
            }
        }
    }

    /// The value bound to `key`, if any.
    #[verifier::loop_isolation(false)]
    pub fn get(&self, key: &str) -> (r: Option<&String>)
        requires
            self.wf(),
        ensures
            match r {
                Some(v) => self@.dom().contains(key@) && self@[key@] == v@,
                None => !self@.dom().contains(key@),
            },
    {
        proof {
            lemma_map_of_dom(self.entries@);
            lemma_map_of_index(self.entries@);
        }
        let mut i: usize = 0;
        while i < self.entries.len()
            invariant
                i <= self.entries@.len(),
                forall|k: int| 0 <= k < i ==> (#[trigger] self.entries@[k]).0@ != key@,
            decreases self.entries.len() - i,
        {
            if str_eq(self.entries[i].0.as_str(), key) {
                return Some(&self.entries[i].1);
            }
            i = i + 1;
        }
        proof {
            assert(!has_key(self.entries@, key@));
        }
        None
    }

    /// How many keys are bound.
    pub fn len(&self) -> (r: usize)
        requires
            self.wf(),
        ensures
            r == self.entry_seq().len(),
    {
        self.entries.len()
    }

    /// The entries in insertion order; the encoder walks them.
    pub fn entries(&self) -> (r: &Vec<(String, String)>)
        ensures
            r@ == self.entry_seq(),
    {
        &self.entries
    }
}

impl View for StringMap {
    type V = Map<Seq<char>, Seq<char>>;

    open spec fn view(&self) -> Map<Seq<char>, Seq<char>> {
        map_of(self.entries@)
    }
}

proof fn lemma_map_of_update(es: Seq<(String, String)>, i: int, key: String, value: String)
    requires
        unique_keys(es),
        0 <= i < es.len(),
        es[i].0@ == key@,
    ensures
        map_of(es.update(i, (key, value))) == map_of(es).insert(key@, value@),
        unique_keys(es.update(i, (key, value))),
    decreases es,
{
    let es2 = es.update(i, (key, value));
    assert forall|a: int, b: int| 0 <= a < b < es2.len() implies (#[trigger] es2[a]).0@ != (
    #[trigger] es2[b]).0@ by {
        assert(es[a].0@ != es[b].0@);
        assert(es2[a].0@ == es[a].0@ && es2[b].0@ == es[b].0@);
    }
    if i == es.len() - 1 {
        assert(es2.drop_last() =~= es.drop_last());
        assert(map_of(es2) =~= map_of(es).insert(key@, value@));
    } else {
        assert(unique_keys(es.drop_last())) by {
            assert forall|a: int, b: int| 0 <= a < b < es.drop_last().len() implies (
            #[trigger] es.drop_last()[a]).0@ != (#[trigger] es.drop_last()[b]).0@ by {
                assert(es.drop_last()[a] == es[a] && es.drop_last()[b] == es[b]);
            }
        }
        lemma_map_of_update(es.drop_last(), i, key, value);
        assert(es2.drop_last() =~= es.drop_last().update(i, (key, value)));
        assert(es2.last() == es.last());
        assert(es.last().0@ != key@);
        assert(map_of(es2) =~= map_of(es).insert(key@, value@));
    }
}

} // verus!

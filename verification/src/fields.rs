//! A string-to-string field mapping in which a later entry for a key
//! shadows an earlier one, used for decoded device-information documents
//! and loaded configuration files.

use vstd::prelude::*;
use crate::text::str_eq;

verus! {

/// One recorded field.
#[derive(Clone, Debug)]
pub struct Entry {
    pub key: String,
    pub value: String,
}

/// An insertion-ordered field mapping; its abstract value is the map in
/// which the last entry recorded for a key wins.
#[derive(Clone, Debug)]
pub struct FieldMap {
    entries: Vec<Entry>,
}

/// The map described by a sequence of entries, later entries shadowing
/// earlier ones.
pub open spec fn kv(entries: Seq<Entry>) -> Map<Seq<char>, Seq<char>>
    decreases entries.len(),
{
    if entries.len() == 0 {
        Map::empty()
    } else {
        kv(entries.drop_last()).insert(entries.last().key@, entries.last().value@)
    }
}

/// The value of the last entry recorded for a key, if any.
pub open spec fn spec_lookup(entries: Seq<Entry>, k: Seq<char>) -> Option<Seq<char>>
    decreases entries.len(),
{
    if entries.len() == 0 {
        None
    } else if entries.last().key@ == k {
        Some(entries.last().value@)
    } else {
        spec_lookup(entries.drop_last(), k)
    }
}

/// The last-recorded entry is exactly what the map holds.
pub proof fn lemma_lookup_kv(entries: Seq<Entry>, k: Seq<char>)
    ensures
        spec_lookup(entries, k) matches Some(v) ==> kv(entries).contains_key(k) && kv(entries)[k]
            == v,
        spec_lookup(entries, k) is None ==> !kv(entries).contains_key(k),
    decreases entries.len(),
{
    if entries.len() > 0 {
        lemma_lookup_kv(entries.drop_last(), k);
    }
}

impl View for FieldMap {
    type V = Map<Seq<char>, Seq<char>>;

    closed spec fn view(&self) -> Map<Seq<char>, Seq<char>> {
        kv(self.entries@)
    }
}

impl FieldMap {
    /// An empty mapping.
    pub fn new() -> (r: FieldMap)
        ensures
            r@ == Map::<Seq<char>, Seq<char>>::empty(),
    {
        FieldMap { entries: Vec::new() }
    }

    /// Record a field; a later record for the same key wins.
    pub fn insert(&mut self, key: String, value: String)
        ensures
            final(self)@ == old(self)@.insert(key@, value@),
    {
        let ghost before = self.entries@;
        let ghost k = key@;
        let ghost v = value@;
        self.entries.push(Entry { key, value });
        proof {
            assert(self.entries@.drop_last() =~= before);
        }
    }

    /// Look up the value recorded for a key.
    pub fn get(&self, key: &str) -> (r: Option<&String>)
        ensures
            r matches Some(v) ==> self@.contains_key(key@) && v@ == self@[key@],
            r is None ==> !self@.contains_key(key@),
    {
        proof {
            lemma_lookup_kv(self.entries@, key@);
            assert(self.entries@.subrange(0, self.entries@.len() as int) =~= self.entries@);
            assert(self.entries@.subrange(0, 0) =~= Seq::<Entry>::empty());
        }
        let mut j: usize = self.entries.len();
        while j > 0
            invariant_except_break
                spec_lookup(self.entries@, key@) == spec_lookup(
                    self.entries@.subrange(0, j as int),
                    key@,
                ),
            invariant
                j <= self.entries.len(),
                self.entries@.subrange(0, 0) == Seq::<Entry>::empty(),
            ensures
                0 < j <= self.entries@.len() ==> spec_lookup(self.entries@, key@) == Some(
                    self.entries@[j - 1].value@,
                ) && self.entries@[j - 1].key@ == key@,
                j == 0 ==> spec_lookup(self.entries@, key@) is None,
            decreases j,
        {
            if str_eq(self.entries[j - 1].key.as_str(), key) {
                proof {
                    assert(self.entries@.subrange(0, j as int).last() == self.entries@[j - 1]);
                }
                break;
            }
            proof {
                assert(self.entries@.subrange(0, j as int).drop_last() =~= self.entries@.subrange(
                    0,
                    j - 1,
                ));
                assert(self.entries@.subrange(0, j as int).last() == self.entries@[j - 1]);
            }
            j = j - 1;
        }
        if j > 0 {
            Some(&self.entries[j - 1].value)
        } else {
            proof {
                assert(self.entries@.subrange(0, 0) =~= Seq::<Entry>::empty());
            }
            None
        }
    }

    /// Whether any value is recorded for a key.
    pub fn contains_key(&self, key: &str) -> (r: bool)
        ensures
            r == self@.contains_key(key@),
    {
        match self.get(key) {
            Some(_) => true,
            None => false,
        }
    }
}

} // verus!

//! The shortcut table: lowercase phrase to replacement.
//!
//! A replacement is either a literal byte string or one of the control
//! tokens `[BACKSPACE]`, `[DELETE]`, `[ENTER]`, `[DELETE_LINE]`.  Keys are
//! unique and insertion order carries no meaning; the table is viewed as a
//! map from key bytes to replacement bytes.

use vstd::prelude::*;
use vstd::string::StrSliceExecFns;
use vstd::string::StringSliceAdditionalSpecFns;
use crate::textproc::{clone_bytes, eq_bytes};

verus! {

/// A phrase-to-replacement table with unique keys.
pub struct ShortcutTable {
    pub entries: Vec<(Vec<u8>, Vec<u8>)>,
}

/// The map described by a sequence of entries; a later entry for the same
/// key wins, though well-formed tables never hold one.
pub open spec fn entries_map(s: Seq<(Seq<u8>, Seq<u8>)>) -> Map<Seq<u8>, Seq<u8>>
    decreases s.len(),
{
    if s.len() == 0 {
        Map::empty()
    } else {
        entries_map(s.drop_last()).insert(s.last().0, s.last().1)
    }
}

impl View for ShortcutTable {
    type V = Map<Seq<u8>, Seq<u8>>;

    open spec fn view(&self) -> Map<Seq<u8>, Seq<u8>> {
        entries_map(self.entry_views())
    }
}

impl ShortcutTable {
    /// The entries as sequences.
    pub open spec fn entry_views(&self) -> Seq<(Seq<u8>, Seq<u8>)> {
        Seq::new(self.entries@.len(), |i: int| (self.entries@[i].0@, self.entries@[i].1@))
    }

    /// No two entries share a key.
    pub open spec fn wf(&self) -> bool {
        forall|a: int, b: int|
            0 <= a < b < self.entry_views().len() ==> self.entry_views()[a].0
                != self.entry_views()[b].0
    }

    /// An empty table.
    pub fn new() -> (t: ShortcutTable)
        ensures
            t@ == Map::<Seq<u8>, Seq<u8>>::empty(),
            t.wf(),
    {
        let t = ShortcutTable { entries: Vec::new() };
        proof {
            assert(t.entry_views() =~= Seq::<(Seq<u8>, Seq<u8>)>::empty());
        }
        t
    }

    /// Look a key up.
    pub fn get(&self, key: &Vec<u8>) -> (r: Option<&Vec<u8>>)
        requires
            self.wf(),
        ensures
            match r {
                Some(v) => self@.contains_key(key@) && self@[key@] == v@,
                None => !self@.contains_key(key@),
            },
    {
        let n: usize = self.entries.len();
        let mut i: usize = 0;
        while i < n
            invariant
                self.wf(),
                n == self.entries@.len(),
                i <= n,
                forall|k: int| 0 <= k < i ==> self.entry_views()[k].0 != key@,
            decreases n - i,
        {
            if eq_bytes(&self.entries[i].0, key) {
                proof {
                    lemma_entries_map_get(self.entry_views(), i as int);
                }
                return Some(&self.entries[i].1);
            }
            i = i + 1;
        }
        proof {
            lemma_entries_map_none(self.entry_views(), key@);
        }
        None
    }

    /// Insert or replace the entry for a key.
    pub fn upsert(&mut self, key: Vec<u8>, value: Vec<u8>)
        requires
            old(self).wf(),
        ensures
            final(self)@ == old(self)@.insert(key@, value@),
            final(self).wf(),
    {
        self.remove(&key);
        let ghost removed = self.entry_views();
        let ghost kv = key@;
        self.entries.push((key, value));
        proof {
            assert(self.entry_views() =~= removed.push((kv, value@)));
            assert(self.entry_views().drop_last() =~= removed);
            assert(forall|a: int, b: int|
                0 <= a < b < self.entry_views().len() ==> self.entry_views()[a].0
                    != self.entry_views()[b].0) by {
                assert(forall|a: int|
                    0 <= a < removed.len() ==> self.entry_views()[a] == removed[a]);
            }
            assert(self@ =~= old(self)@.insert(kv, value@));
        }
    }

    /// Remove the entry for a key, if present.
    pub fn remove(&mut self, key: &Vec<u8>)
        requires
            old(self).wf(),
        ensures
            final(self)@ == old(self)@.remove(key@),
            final(self).wf(),
            forall|k: int|
                0 <= k < final(self).entry_views().len() ==> final(self).entry_views()[k].0
                    != key@,
    {
        let n: usize = self.entries.len();
        let mut i: usize = 0;
        while i < n
            invariant
                self.wf(),
                self == old(self),
                n == self.entries@.len(),
                i <= n,
                forall|k: int| 0 <= k < i ==> self.entry_views()[k].0 != key@,
            decreases n - i,
        {
            if eq_bytes(&self.entries[i].0, key) {
                proof {
                    lemma_entries_map_remove(self.entry_views(), i as int);
                }
                let _ = self.entries.remove(i);
                proof {
                    assert(self.entry_views() =~= old(self).entry_views().remove(i as int));
                    assert(forall|k: int|
                        0 <= k < self.entry_views().len() ==> self.entry_views()[k].0 != key@)
                        by {
                        assert(forall|k: int|
                            0 <= k < self.entry_views().len() ==> self.entry_views()[k]
                                == old(self).entry_views().remove(i as int)[k]);
                    }
                }
                return ;
            }
            i = i + 1;
        }
        proof {
            lemma_entries_map_none(self.entry_views(), key@);
            assert(self@ =~= old(self)@.remove(key@));
        }
    }

    /// How many entries the table holds.
    pub fn len(&self) -> (n: usize)
        ensures
            n == self.entries@.len(),
    {
        self.entries.len()
    }

    /// The entry at an index, for walking the table.
    pub fn entry_at(&self, i: usize) -> (e: (&Vec<u8>, &Vec<u8>))
        requires
            i < self.entry_views().len(),
        ensures
            e.0@ == self.entry_views()[i as int].0,
            e.1@ == self.entry_views()[i as int].1,
    {
        (&self.entries[i].0, &self.entries[i].1)
    }

    /// A deep copy of the table.
    pub fn duplicate(&self) -> (t: ShortcutTable)
        ensures
            t.entry_views() == self.entry_views(),
            t@ == self@,
            self.wf() ==> t.wf(),
    {
        let n: usize = self.entries.len();
        let mut entries: Vec<(Vec<u8>, Vec<u8>)> = Vec::new();
        let mut i: usize = 0;
        while i < n
            invariant
                n == self.entries@.len(),
                i <= n,
                entries@.len() == i,
                forall|k: int|
                    0 <= k < i ==> entries@[k].0@ == self.entry_views()[k].0 && entries@[k].1@
                        == self.entry_views()[k].1,
            decreases n - i,
        {
            let k: Vec<u8> = clone_bytes(&self.entries[i].0);
            let v: Vec<u8> = clone_bytes(&self.entries[i].1);
            entries.push((k, v));
            i = i + 1;
        }
        let t = ShortcutTable { entries };
        proof {
            assert(t.entry_views() =~= self.entry_views());
        }
        t
    }
}

proof fn lemma_entries_map_get(s: Seq<(Seq<u8>, Seq<u8>)>, i: int)
    requires
        0 <= i < s.len(),
        forall|a: int, b: int| 0 <= a < b < s.len() ==> s[a].0 != s[b].0,
    ensures
        entries_map(s).contains_key(s[i].0),
        entries_map(s)[s[i].0] == s[i].1,
    decreases s.len(),
{
    if i == s.len() - 1 {
    } else {
        assert(forall|a: int, b: int|
            0 <= a < b < s.drop_last().len() ==> s.drop_last()[a].0 != s.drop_last()[b].0);
        lemma_entries_map_get(s.drop_last(), i);
        assert(s[i].0 != s.last().0);
    }
}

proof fn lemma_entries_map_none(s: Seq<(Seq<u8>, Seq<u8>)>, key: Seq<u8>)
    requires
        forall|k: int| 0 <= k < s.len() ==> s[k].0 != key,
    ensures
        !entries_map(s).contains_key(key),
    decreases s.len(),
{
    if s.len() > 0 {
        assert(forall|k: int| 0 <= k < s.len() - 1 ==> s.drop_last()[k].0 != key);
        lemma_entries_map_none(s.drop_last(), key);
    }
}

proof fn lemma_entries_map_remove(s: Seq<(Seq<u8>, Seq<u8>)>, i: int)
    requires
        0 <= i < s.len(),
        forall|a: int, b: int| 0 <= a < b < s.len() ==> s[a].0 != s[b].0,
    ensures
        entries_map(s.remove(i)) == entries_map(s).remove(s[i].0),
    decreases s.len(),
{
    if i == s.len() - 1 {
        assert(s.remove(i) =~= s.drop_last());
        assert(forall|k: int| 0 <= k < s.drop_last().len() ==> s.drop_last()[k].0 != s[i].0);
        lemma_entries_map_none(s.drop_last(), s[i].0);
        assert(entries_map(s.drop_last()) =~= entries_map(s).remove(s[i].0));
    } else {
        assert(forall|a: int, b: int|
            0 <= a < b < s.drop_last().len() ==> s.drop_last()[a].0 != s.drop_last()[b].0);
        lemma_entries_map_remove(s.drop_last(), i);
        assert(s.remove(i).drop_last() =~= s.drop_last().remove(i));
        assert(s.remove(i).last() == s.last());
        assert(s[i].0 != s.last().0);
        assert(entries_map(s.remove(i)) == entries_map(s.drop_last().remove(i)).insert(
            s.last().0,
            s.last().1,
        ));
        assert(entries_map(s.drop_last()).remove(s[i].0).insert(s.last().0, s.last().1)
            =~= entries_map(s.drop_last()).insert(s.last().0, s.last().1).remove(s[i].0));
    }
}

/// The default shortcut table.
pub fn default_shortcuts() -> (t: ShortcutTable)
    ensures
        t.wf(),
        t@ == Map::<Seq<u8>, Seq<u8>>::empty().insert(
            "delete".spec_bytes(),
            "[BACKSPACE]".spec_bytes(),
        ).insert("backspace".spec_bytes(), "[BACKSPACE]".spec_bytes()).insert(
            "delete that".spec_bytes(),
            "[DELETE_LINE]".spec_bytes(),
        ).insert("new line".spec_bytes(), "[ENTER]".spec_bytes()).insert(
            "enter".spec_bytes(),
            "[ENTER]".spec_bytes(),
        ).insert("space".spec_bytes(), " ".spec_bytes()),
{
    let mut t = ShortcutTable::new();
    t.upsert("delete".as_bytes_vec(), "[BACKSPACE]".as_bytes_vec());
    t.upsert("backspace".as_bytes_vec(), "[BACKSPACE]".as_bytes_vec());
    t.upsert("delete that".as_bytes_vec(), "[DELETE_LINE]".as_bytes_vec());
    t.upsert("new line".as_bytes_vec(), "[ENTER]".as_bytes_vec());
    t.upsert("enter".as_bytes_vec(), "[ENTER]".as_bytes_vec());
    t.upsert("space".as_bytes_vec(), " ".as_bytes_vec());
    t
}

} // verus!

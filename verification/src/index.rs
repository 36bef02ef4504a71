//! The entries of an archive, found by path.
//!
//! Paths are compared as they are: case matters and nothing is normalised.
//! An entry that comes in under a path that is already listed takes the
//! place of the earlier one.
use crate::entry::{EntryView, ThorEntry};
use vstd::prelude::*;

verus! {

/// What a vector of entries holds.
pub open spec fn entry_views(entries: Seq<ThorEntry>) -> Seq<EntryView> {
    Seq::new(entries.len(), |i: int| entries[i]@)
}

/// The paths of a list of entries, in order.
pub open spec fn paths(entries: Seq<EntryView>) -> Seq<Seq<char>> {
    Seq::new(entries.len(), |i: int| entries[i].relative_path)
}

/// Whether one of the entries has the path.
pub open spec fn has_path(entries: Seq<EntryView>, path: Seq<char>) -> bool {
    exists|i: int| 0 <= i < entries.len() && (#[trigger] entries[i]).relative_path == path
}

/// Whether no two entries share a path.
pub open spec fn distinct_paths(entries: Seq<EntryView>) -> bool {
    forall|i: int, j: int|
        0 <= i < j < entries.len() ==> (#[trigger] entries[i]).relative_path
            != (#[trigger] entries[j]).relative_path
}

/// The list with `entry` put in: in the place of the entry that has its
/// path, or at the end where no entry has it.
pub open spec fn upsert(entries: Seq<EntryView>, entry: EntryView) -> Seq<EntryView> {
    if has_path(entries, entry.relative_path) {
        Seq::new(
            entries.len(),
            |i: int|
                if entries[i].relative_path == entry.relative_path {
                    entry
                } else {
                    entries[i]
                },
        )
    } else {
        entries.push(entry)
    }
}

/// The list that comes of putting the records in one after the other,
/// starting from nothing.
pub open spec fn fold_entries(records: Seq<EntryView>) -> Seq<EntryView>
    decreases records.len(),
{
    if records.len() == 0 {
        Seq::empty()
    } else {
        upsert(fold_entries(records.drop_last()), records.last())
    }
}

/// The map from path to entry that a list of entries stands for. Where
/// several entries share a path, the last of them is the one mapped.
pub open spec fn entry_map(entries: Seq<EntryView>) -> Map<Seq<char>, EntryView>
    decreases entries.len(),
{
    if entries.len() == 0 {
        Map::empty()
    } else {
        entry_map(entries.drop_last()).insert(entries.last().relative_path, entries.last())
    }
}

/// The map of a list is finite and has exactly the paths of the list as keys.
pub proof fn lemma_entry_map_keys(entries: Seq<EntryView>)
    ensures
        entry_map(entries).dom().finite(),
        forall|path: Seq<char>| #[trigger]
            entry_map(entries).contains_key(path) <==> has_path(entries, path),
    decreases entries.len(),
{
    if entries.len() > 0 {
        let front = entries.drop_last();
        let last = entries.last();
        lemma_entry_map_keys(front);
        assert forall|path: Seq<char>| #[trigger]
            entry_map(entries).contains_key(path) <==> has_path(entries, path) by {
            if has_path(entries, path) {
                let i = choose|i: int|
                    0 <= i < entries.len() && (#[trigger] entries[i]).relative_path == path;
                if i < front.len() {
                    assert(front[i].relative_path == path);
                }
            }
            if entry_map(entries).contains_key(path) {
                if path == last.relative_path {
                    assert(entries[entries.len() - 1].relative_path == path);
                } else {
                    let i = choose|i: int|
                        0 <= i < front.len() && (#[trigger] front[i]).relative_path == path;
                    assert(entries[i].relative_path == path);
                }
            }
        }
    }
}

/// An entry that no later entry of the list shares its path with is the one
/// that the map holds under that path.
pub proof fn lemma_entry_map_last_wins(entries: Seq<EntryView>, i: int)
    requires
        0 <= i < entries.len(),
        forall|j: int|
            i < j < entries.len() ==> (#[trigger] entries[j]).relative_path
                != entries[i].relative_path,
    ensures
        entry_map(entries).contains_key(entries[i].relative_path),
        entry_map(entries)[entries[i].relative_path] == entries[i],
    decreases entries.len(),
{
    if i < entries.len() - 1 {
        let front = entries.drop_last();
        assert(entries[entries.len() - 1].relative_path != entries[i].relative_path);
        assert forall|j: int| i < j < front.len() implies (#[trigger] front[j]).relative_path
            != front[i].relative_path by {
            assert(entries[j].relative_path != entries[i].relative_path);
        }
        lemma_entry_map_last_wins(front, i);
    }
}

/// A list without shared paths has as many entries as its map has keys.
pub proof fn lemma_entry_map_len(entries: Seq<EntryView>)
    requires
        distinct_paths(entries),
    ensures
        entry_map(entries).dom().finite(),
        entry_map(entries).dom().len() == entries.len(),
    decreases entries.len(),
{
    if entries.len() > 0 {
        let front = entries.drop_last();
        let last = entries.last();
        assert forall|i: int, j: int| 0 <= i < j < front.len() implies
            (#[trigger] front[i]).relative_path != (#[trigger] front[j]).relative_path by {
            assert(entries[i].relative_path != entries[j].relative_path);
        }
        lemma_entry_map_len(front);
        lemma_entry_map_keys(front);
        if has_path(front, last.relative_path) {
            let i = choose|i: int|
                0 <= i < front.len() && (#[trigger] front[i]).relative_path == last.relative_path;
            assert(entries[i].relative_path != entries[entries.len() - 1].relative_path);
        }
        assert(!entry_map(front).contains_key(last.relative_path));
        assert(entry_map(entries).dom() =~= entry_map(front).dom().insert(last.relative_path));
    }
}

/// Putting an entry into a list without shared paths leaves the list
/// without shared paths, and does to its map what `Map::insert` does.
pub proof fn lemma_upsert(entries: Seq<EntryView>, entry: EntryView)
    requires
        distinct_paths(entries),
    ensures
        distinct_paths(upsert(entries, entry)),
        entry_map(upsert(entries, entry)) == entry_map(entries).insert(
            entry.relative_path,
            entry,
        ),
{
    let after = upsert(entries, entry);
    if has_path(entries, entry.relative_path) {
        let at = choose|i: int|
            0 <= i < entries.len() && (#[trigger] entries[i]).relative_path == entry.relative_path;
        assert forall|i: int, j: int| 0 <= i < j < after.len() implies
            (#[trigger] after[i]).relative_path != (#[trigger] after[j]).relative_path by {
            assert(entries[i].relative_path != entries[j].relative_path);
        }
        lemma_entry_map_keys(entries);
        lemma_entry_map_keys(after);
        let wanted = entry_map(entries).insert(entry.relative_path, entry);
        assert forall|path: Seq<char>| #[trigger]
            entry_map(after).contains_key(path) <==> wanted.contains_key(path) by {
            if has_path(after, path) {
                let i = choose|i: int|
                    0 <= i < after.len() && (#[trigger] after[i]).relative_path == path;
                assert(entries[i].relative_path == path);
            }
            if has_path(entries, path) {
                let i = choose|i: int|
                    0 <= i < entries.len() && (#[trigger] entries[i]).relative_path == path;
                assert(after[i].relative_path == path);
            }
            if path == entry.relative_path {
                assert(after[at].relative_path == path);
            }
        }
        assert forall|path: Seq<char>| #[trigger]
            entry_map(after).contains_key(path) implies entry_map(after)[path]
            == wanted[path] by {
            let i = choose|i: int|
                0 <= i < after.len() && (#[trigger] after[i]).relative_path == path;
            assert forall|j: int| i < j < after.len() implies (#[trigger] after[j]).relative_path
                != after[i].relative_path by {
                assert(after[i].relative_path != after[j].relative_path);
            }
            lemma_entry_map_last_wins(after, i);
            if path != entry.relative_path {
                assert forall|j: int| i < j < entries.len() implies
                    (#[trigger] entries[j]).relative_path != entries[i].relative_path by {
                    assert(entries[i].relative_path != entries[j].relative_path);
                }
                lemma_entry_map_last_wins(entries, i);
            }
        }
        assert(entry_map(after) =~= wanted);
    } else {
        assert(after.drop_last() =~= entries);
        assert forall|i: int, j: int| 0 <= i < j < after.len() implies
            (#[trigger] after[i]).relative_path != (#[trigger] after[j]).relative_path by {
            if j < entries.len() {
                assert(entries[i].relative_path != entries[j].relative_path);
            } else {
                assert(entries[i].relative_path != entry.relative_path);
            }
        }
    }
}

/// Folding records into a list gives a list without shared paths that
/// stands for the same map as the records.
pub proof fn lemma_fold_entries(records: Seq<EntryView>)
    ensures
        distinct_paths(fold_entries(records)),
        entry_map(fold_entries(records)) == entry_map(records),
    decreases records.len(),
{
    if records.len() > 0 {
        lemma_fold_entries(records.drop_last());
        lemma_upsert(fold_entries(records.drop_last()), records.last());
    }
}

/// Folding records into a list keeps one entry for each distinct path of the
/// records: shared paths collapse.
pub proof fn lemma_fold_entries_len(records: Seq<EntryView>)
    ensures
        entry_map(records).dom() == paths(records).to_set(),
        fold_entries(records).len() == paths(records).to_set().len(),
{
    lemma_fold_entries(records);
    lemma_entry_map_len(fold_entries(records));
    lemma_entry_map_keys(records);
    assert forall|path: Seq<char>|
        entry_map(records).dom().contains(path) <==> paths(records).to_set().contains(
            path,
        ) by {
        if has_path(records, path) {
            let i = choose|i: int|
                0 <= i < records.len() && (#[trigger] records[i]).relative_path == path;
            assert(paths(records)[i] == path);
        }
        if paths(records).contains(path) {
            let i = choose|i: int| 0 <= i < paths(records).len() && paths(records)[i] == path;
            assert(records[i].relative_path == path);
        }
    }
    assert(entry_map(records).dom() =~= paths(records).to_set());
}

/// The entries of an archive, one per path.
///
/// To contracts it is the list of its entries, [`EntryIndex::listing`], in
/// which no two entries share a path; its view is the map from path to
/// entry that this list stands for. The entries are kept in a vector, so a
/// lookup walks the list.
#[derive(Debug, PartialEq, Eq)]
pub struct EntryIndex {
    entries: Vec<ThorEntry>,
}

impl View for EntryIndex {
    type V = Map<Seq<char>, EntryView>;

    open spec fn view(&self) -> Map<Seq<char>, EntryView> {
        entry_map(self.listing())
    }
}

/// The place of the first entry that has the path.
fn position(entries: &Vec<ThorEntry>, path: &String) -> (r: Option<usize>)
    ensures
        match r {
            Some(at) => {
                &&& at < entries@.len()
                &&& entries@[at as int].relative_path@ == path@
            },
            None => forall|i: int|
                0 <= i < entries@.len() ==> (#[trigger] entries@[i]).relative_path@ != path@,
        },
{
    let mut i: usize = 0;
    while i < entries.len()
        invariant
            i <= entries@.len(),
            forall|k: int| 0 <= k < i ==> (#[trigger] entries@[k]).relative_path@ != path@,
        decreases entries@.len() - i,
    {
        if entries[i].relative_path == *path {
            return Some(i);
        }
        i += 1;
    }
    None
}

impl EntryIndex {
    #[verifier::type_invariant]
    spec fn well_formed(self) -> bool {
        distinct_paths(entry_views(self.entries@))
    }

    /// The entries in the order in which their paths first came in.
    pub closed spec fn listing(&self) -> Seq<EntryView> {
        entry_views(self.entries@)
    }

    /// An index without entries.
    pub fn new() -> (index: EntryIndex)
        ensures
            index.listing() == Seq::<EntryView>::empty(),
            index@ == Map::<Seq<char>, EntryView>::empty(),
    {
        let index = EntryIndex { entries: Vec::new() };
        assert(index.listing() =~= Seq::<EntryView>::empty());
        index
    }

    /// Puts an entry in. An entry already listed under the same path is
    /// replaced where it stands.
    pub fn insert(&mut self, entry: ThorEntry)
        ensures
            final(self).listing() == upsert(old(self).listing(), entry@),
            final(self)@ == old(self)@.insert(entry@.relative_path, entry@),
            distinct_paths(final(self).listing()),
    {
        proof {
            use_type_invariant(&*self);
        }
        let ghost before = self.listing();
        let ghost put = entry@;
        let mut entries: Vec<ThorEntry> = Vec::new();
        std::mem::swap(&mut entries, &mut self.entries);
        match position(&entries, &entry.relative_path) {
            Some(at) => {
                entries.set(at, entry);
                proof {
                    assert(before[at as int].relative_path == put.relative_path);
                    assert forall|i: int| 0 <= i < before.len() implies #[trigger] entry_views(
                        entries@,
                    )[i] == upsert(before, put)[i] by {
                        if i != at {
                            if i < at {
                                assert(before[i].relative_path != before[at as int].relative_path);
                            } else {
                                assert(before[at as int].relative_path != before[i].relative_path);
                            }
                        }
                    }
                }
            },
            None => {
                entries.push(entry);
                proof {
                    assert forall|i: int| 0 <= i < before.len() implies
                        (#[trigger] before[i]).relative_path != put.relative_path by {
                        assert(entries@[i].relative_path@ != put.relative_path);
                    }
                }
            },
        }
        proof {
            assert(entry_views(entries@) =~= upsert(before, put));
            lemma_upsert(before, put);
        }
        self.entries = entries;
    }

    /// The entry listed under the path, if there is one.
    pub fn get(&self, path: &str) -> (r: Option<&ThorEntry>)
        ensures
            match r {
                Some(entry) => self@.contains_key(path@) && entry@ == self@[path@],
                None => !self@.contains_key(path@),
            },
    {
        proof {
            use_type_invariant(self);
            lemma_entry_map_keys(self.listing());
        }
        let wanted = path.to_owned();
        match position(&self.entries, &wanted) {
            Some(at) => {
                proof {
                    let listing = self.listing();
                    assert(listing[at as int].relative_path == path@);
                    assert forall|j: int| at < j < listing.len() implies
                        (#[trigger] listing[j]).relative_path
                        != listing[at as int].relative_path by {
                        assert(listing[at as int].relative_path != listing[j].relative_path);
                    }
                    lemma_entry_map_last_wins(listing, at as int);
                }
                Some(&self.entries[at])
            },
            None => {
                proof {
                    let listing = self.listing();
                    assert forall|i: int| 0 <= i < listing.len() implies
                        (#[trigger] listing[i]).relative_path != path@ by {
                        assert(self.entries@[i].relative_path@ != path@);
                    }
                }
                None
            },
        }
    }

    /// The number of entries.
    pub fn len(&self) -> (n: usize)
        ensures
            n == self.listing().len(),
            n == self@.dom().len(),
    {
        proof {
            use_type_invariant(self);
            lemma_entry_map_len(self.listing());
        }
        self.entries.len()
    }

    /// Whether there is no entry.
    pub fn is_empty(&self) -> (empty: bool)
        ensures
            empty == (self.listing().len() == 0),
    {
        self.entries.len() == 0
    }

    /// All entries, in the order of [`EntryIndex::listing`].
    pub fn entries(&self) -> (all: &Vec<ThorEntry>)
        ensures
            entry_views(all@) == self.listing(),
            distinct_paths(self.listing()),
    {
        proof {
            use_type_invariant(self);
        }
        &self.entries
    }
}

} // verus!

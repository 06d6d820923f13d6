//! One materialized row: a mapping from column name to scalar value.

use vstd::prelude::*;

use crate::value::{BatchDataFrameValue, ScalarModel};

verus! {

/// A row is an association list from column name to scalar value, with
/// pairwise-distinct names. It is viewed as a finite map from the name's
/// character sequence to the scalar's model.
#[derive(Debug)]
pub struct BatchDataFrameRow {
    pub entries: Vec<(String, BatchDataFrameValue)>,
}

/// The map an entry sequence denotes: entries are folded in order, so a
/// later entry for a name overrides an earlier one.
pub open spec fn entries_model(
    entries: Seq<(String, BatchDataFrameValue)>,
) -> Map<Seq<char>, ScalarModel>
    decreases entries.len(),
{
    if entries.len() == 0 {
        Map::empty()
    } else {
        entries_model(entries.drop_last()).insert(entries.last().0@, entries.last().1@)
    }
}

/// No two entries carry the same name.
pub open spec fn distinct_names(entries: Seq<(String, BatchDataFrameValue)>) -> bool {
    forall|i: int, j: int|
        0 <= i < j < entries.len() ==> entries[i].0@ != entries[j].0@
}

impl View for BatchDataFrameRow {
    type V = Map<Seq<char>, ScalarModel>;

    open spec fn view(&self) -> Map<Seq<char>, ScalarModel> {
        entries_model(self.entries@)
    }
}

/// A name is in the model exactly when some entry carries it.
pub proof fn lemma_model_contains_key(
    entries: Seq<(String, BatchDataFrameValue)>,
    name: Seq<char>,
)
    ensures
        entries_model(entries).contains_key(name) <==> (exists|i: int|
            0 <= i < entries.len() && entries[i].0@ == name),
    decreases entries.len(),
{
    if entries.len() > 0 {
        let prefix = entries.drop_last();
        lemma_model_contains_key(prefix, name);
        if entries.last().0@ == name {
            assert(entries[entries.len() - 1].0@ == name);
        } else {
            if exists|i: int| 0 <= i < entries.len() && entries[i].0@ == name {
                let i = choose|i: int| 0 <= i < entries.len() && entries[i].0@ == name;
                assert(prefix[i].0@ == name);
            }
            if exists|i: int| 0 <= i < prefix.len() && prefix[i].0@ == name {
                let i = choose|i: int| 0 <= i < prefix.len() && prefix[i].0@ == name;
                assert(entries[i].0@ == name);
            }
        }
    }
}

/// With distinct names, each entry's value is the one the model assigns to
/// its name.
pub proof fn lemma_model_index(entries: Seq<(String, BatchDataFrameValue)>, i: int)
    requires
        distinct_names(entries),
        0 <= i < entries.len(),
    ensures
        entries_model(entries).contains_key(entries[i].0@),
        entries_model(entries)[entries[i].0@] == entries[i].1@,
    decreases entries.len(),
{
    let prefix = entries.drop_last();
    if i < entries.len() - 1 {
        assert forall|a: int, b: int| 0 <= a < b < prefix.len() implies prefix[a].0@
            != prefix[b].0@ by {
            assert(prefix[a] == entries[a]);
            assert(prefix[b] == entries[b]);
        }
        lemma_model_index(prefix, i);
        assert(entries[i].0@ != entries.last().0@);
    }
}

/// Replacing the entry that carries a name, by a new entry with that same
/// name, acts on the model as an insert for that name.
pub proof fn lemma_model_update(
    entries: Seq<(String, BatchDataFrameValue)>,
    j: int,
    entry: (String, BatchDataFrameValue),
)
    requires
        distinct_names(entries),
        0 <= j < entries.len(),
        entry.0@ == entries[j].0@,
    ensures
        distinct_names(entries.update(j, entry)),
        entries_model(entries.update(j, entry)) == entries_model(entries).insert(
            entry.0@,
            entry.1@,
        ),
    decreases entries.len(),
{
    let updated = entries.update(j, entry);
    assert forall|a: int, b: int| 0 <= a < b < updated.len() implies updated[a].0@
        != updated[b].0@ by {
        assert(updated[a].0@ == entries[a].0@);
        assert(updated[b].0@ == entries[b].0@);
    }
    let prefix = entries.drop_last();
    let last = entries.last();
    if j == entries.len() - 1 {
        assert(updated.drop_last() =~= prefix);
        assert(updated.last() == entry);
        assert(entries_model(prefix).insert(last.0@, last.1@).insert(entry.0@, entry.1@)
            =~= entries_model(prefix).insert(entry.0@, entry.1@));
    } else {
        assert(updated.drop_last() =~= prefix.update(j, entry));
        assert(updated.last() == last);
        assert forall|a: int, b: int| 0 <= a < b < prefix.len() implies prefix[a].0@
            != prefix[b].0@ by {
            assert(prefix[a] == entries[a]);
            assert(prefix[b] == entries[b]);
        }
        lemma_model_update(prefix, j, entry);
        assert(entry.0@ != last.0@);
        assert(entries_model(prefix).insert(entry.0@, entry.1@).insert(last.0@, last.1@)
            =~= entries_model(prefix).insert(last.0@, last.1@).insert(entry.0@, entry.1@));
    }
}

impl BatchDataFrameRow {
    /// The names of this row's entries are pairwise distinct.
    pub open spec fn wf(&self) -> bool {
        distinct_names(self.entries@)
    }

    /// An empty row, mapping no name to anything.
    pub fn new() -> (r: Self)
        ensures
            r.wf(),
            r@ == Map::<Seq<char>, ScalarModel>::empty(),
    {
        BatchDataFrameRow { entries: Vec::new() }
    }

    /// The number of columns this row holds.
    pub fn len(&self) -> (n: usize)
        ensures
            n == self.entries@.len(),
    {
        self.entries.len()
    }

    /// The index of the entry carrying `name`, if any entry does.
    fn position_of(&self, name: &String) -> (r: Option<usize>)
        ensures
            (match r {
                Some(j) => j < self.entries@.len() && self.entries@[j as int].0@ == name@,
                None => forall|k: int|
                    0 <= k < self.entries@.len() ==> self.entries@[k].0@ != name@,
            }),
    {
        let mut i: usize = 0;
        while i < self.entries.len()
            invariant
                i <= self.entries@.len(),
                forall|k: int| 0 <= k < i ==> self.entries@[k].0@ != name@,
            decreases self.entries@.len() - i,
        {
            if self.entries[i].0 == *name {
                return Some(i);
            }
            i += 1;
        }
        None
    }

    /// Binds `name` to `value`, overriding any earlier binding of that name.
    pub fn insert(&mut self, name: String, value: BatchDataFrameValue)
        requires
            old(self).wf(),
        ensures
            final(self).wf(),
            final(self)@ == old(self)@.insert(name@, value@),
    {
        let ghost old_entries = self.entries@;
        let pos = self.position_of(&name);
        let entry = (name, value);
        match pos {
            Some(j) => {
                proof {
                    lemma_model_update(old_entries, j as int, entry);
                }
                self.entries[j] = entry;
            }
            None => {
                proof {
                    assert(old_entries.push(entry).drop_last() =~= old_entries);
                    assert forall|a: int, b: int|
                        0 <= a < b < old_entries.push(entry).len() implies old_entries.push(
                        entry,
                    )[a].0@ != old_entries.push(entry)[b].0@ by {
                        if b < old_entries.len() {
                            assert(old_entries.push(entry)[a] == old_entries[a]);
                            assert(old_entries.push(entry)[b] == old_entries[b]);
                        } else {
                            assert(old_entries.push(entry)[a] == old_entries[a]);
                            assert(old_entries.push(entry)[b] == entry);
                        }
                    }
                }
                self.entries.push(entry);
            }
        }
    }

    /// The value bound to `name`, or `None` when the row has no such column.
    pub fn get(&self, name: &str) -> (r: Option<&BatchDataFrameValue>)
        requires
            self.wf(),
        ensures
            (match r {
                Some(v) => self@.contains_key(name@) && v@ == self@[name@],
                None => !self@.contains_key(name@),
            }),
    {
        let key: String = name.to_owned();
        match self.position_of(&key) {
            Some(j) => {
                proof {
                    lemma_model_index(self.entries@, j as int);
                }
                Some(&self.entries[j].1)
            }
            None => {
                proof {
                    lemma_model_contains_key(self.entries@, name@);
                }
                None
            }
        }
    }
}

} // verus!

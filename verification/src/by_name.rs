//! Values by name, in the order of their names.
use vstd::prelude::*;

use crate::text;

verus! {

/// A value and the name that it stands under.
#[derive(Debug, PartialEq, Eq)]
pub struct Entry<V> {
    /// The name.
    pub name: String,
    /// The value.
    pub value: V,
}

/// Values by name: every name once, in ascending order.
#[derive(Debug, PartialEq, Eq)]
pub struct ByName<V> {
    entries: Vec<Entry<V>>,
}

/// Whether the names of `entries` ascend strictly.
pub open spec fn ascending<V>(entries: Seq<Entry<V>>) -> bool {
    forall|i: int, j: int|
        0 <= i < j < entries.len() ==> text::precedes(
            (#[trigger] entries[i]).name@,
            (#[trigger] entries[j]).name@,
        )
}

/// The first position from `i` on whose name does not come before `name`.
pub open spec fn place_from<V>(entries: Seq<Entry<V>>, name: Seq<char>, i: int) -> int
    decreases entries.len() - i,
{
    if 0 <= i < entries.len() && text::precedes(entries[i].name@, name) {
        place_from(entries, name, i + 1)
    } else {
        i
    }
}

/// `entries` with one more entry at its place, instead of the one with the same name if there is
/// one.
pub open spec fn inserted<V>(entries: Seq<Entry<V>>, entry: Entry<V>) -> Seq<Entry<V>> {
    let at = place_from(entries, entry.name@, 0);
    if at < entries.len() && entries[at].name@ == entry.name@ {
        entries.update(at, entry)
    } else {
        entries.insert(at, entry)
    }
}

/// The entries that are left of the first `count`, each inserted in turn.
pub open spec fn collected<V>(entries: Seq<Entry<V>>, count: int) -> Seq<Entry<V>>
    decreases count,
{
    if count <= 0 {
        Seq::empty()
    } else {
        inserted(collected(entries, count - 1), entries[count - 1])
    }
}

/// The value under `name`, looked for from position `i` on.
pub open spec fn value_from<V>(entries: Seq<Entry<V>>, name: Seq<char>, i: int) -> Option<V>
    decreases entries.len() - i,
{
    if i < 0 || i >= entries.len() {
        None
    } else if entries[i].name@ == name {
        Some(entries[i].value)
    } else {
        value_from(entries, name, i + 1)
    }
}

proof fn lemma_place<V>(entries: Seq<Entry<V>>, name: Seq<char>, i: int)
    requires
        0 <= i <= entries.len(),
    ensures
        i <= place_from(entries, name, i) <= entries.len(),
        forall|k: int|
            i <= k < place_from(entries, name, i) ==> text::precedes(
                (#[trigger] entries[k]).name@,
                name,
            ),
        place_from(entries, name, i) < entries.len() ==> !text::precedes(
            entries[place_from(entries, name, i)].name@,
            name,
        ),
    decreases entries.len() - i,
{
    if i < entries.len() && text::precedes(entries[i].name@, name) {
        lemma_place(entries, name, i + 1);
    }
}

proof fn lemma_inserted_ascends<V>(entries: Seq<Entry<V>>, entry: Entry<V>)
    requires
        ascending(entries),
    ensures
        ascending(inserted(entries, entry)),
{
    let name = entry.name@;
    let at = place_from(entries, name, 0);
    lemma_place(entries, name, 0);
    let after = inserted(entries, entry);
    if at < entries.len() && entries[at].name@ == name {
        assert forall|i: int, j: int| 0 <= i < j < after.len() implies text::precedes(
            (#[trigger] after[i]).name@,
            (#[trigger] after[j]).name@,
        ) by {
            assert(after[i].name@ == entries[i].name@);
            assert(after[j].name@ == entries[j].name@);
        }
    } else {
        if at < entries.len() {
            text::lemma_precedes_total(name, entries[at].name@);
        }
        assert forall|i: int, j: int| 0 <= i < j < after.len() implies text::precedes(
            (#[trigger] after[i]).name@,
            (#[trigger] after[j]).name@,
        ) by {
            let left = if i < at {
                entries[i]
            } else if i == at {
                entry
            } else {
                entries[i - 1]
            };
            let right = if j < at {
                entries[j]
            } else if j == at {
                entry
            } else {
                entries[j - 1]
            };
            assert(after[i] == left);
            assert(after[j] == right);
            if i == at && j - 1 > at {
                text::lemma_precedes_transitive(
                    name,
                    entries[at].name@,
                    entries[j - 1].name@,
                );
            }
        }
    }
}

impl<V> ByName<V> {
    #[verifier::type_invariant]
    spec fn well_formed(self) -> bool {
        ascending(self.entries@)
    }

    /// The entries, in the order of their names.
    pub closed spec fn entries(&self) -> Seq<Entry<V>> {
        self.entries@
    }

    /// No values.
    pub fn new() -> (values: Self)
        ensures
            values.entries() == Seq::<Entry<V>>::empty(),
    {
        ByName { entries: Vec::new() }
    }

    /// The values of `entries`; of those under one name the last.
    pub fn from_entries(entries: Vec<Entry<V>>) -> (values: Self)
        ensures
            values.entries() == collected(entries@, entries@.len() as int),
            ascending(values.entries()),
    {
        let ghost given = entries@;
        let mut values: ByName<V> = ByName::new();
        let mut rest: Vec<Entry<V>> = entries;
        let ghost mut done: int = 0;
        assert(given.skip(0) =~= given);
        while rest.len() > 0
            invariant
                0 <= done <= given.len(),
                rest@ == given.skip(done),
                values.entries() == collected(given, done),
            decreases rest@.len(),
        {
            let entry: Entry<V> = rest.remove(0);
            assert(entry == given[done]);
            assert(rest@ =~= given.skip(done + 1));
            values = values.with(entry);
            proof {
                done = done + 1;
            }
        }
        proof {
            use_type_invariant(&values);
        }
        values
    }

    /// These values and one more; it takes the place of the one under the same name.
    pub fn with(self, entry: Entry<V>) -> (values: Self)
        ensures
            values.entries() == inserted(self.entries(), entry),
            ascending(values.entries()),
    {
        proof {
            use_type_invariant(&self);
        }
        let ghost before = self.entries@;
        let mut entries: Vec<Entry<V>> = self.entries;
        let mut at: usize = 0;
        while at < entries.len() && text::text_before(
            entries[at].name.as_str(),
            entry.name.as_str(),
        )
            invariant
                at <= entries@.len(),
                entries@ == before,
                place_from(before, entry.name@, 0) == place_from(before, entry.name@, at as int),
            decreases entries@.len() - at,
        {
            at += 1;
        }
        proof {
            lemma_inserted_ascends(before, entry);
        }
        if at < entries.len() && text::same_text(entries[at].name.as_str(), entry.name.as_str()) {
            entries.set(at, entry);
        } else {
            entries.insert(at, entry);
        }
        ByName { entries }
    }

    /// How many values there are.
    pub fn len(&self) -> (count: usize)
        ensures
            count == self.entries().len(),
    {
        self.entries.len()
    }

    /// The entry at a position.
    pub fn at(&self, i: usize) -> (entry: &Entry<V>)
        requires
            i < self.entries().len(),
        ensures
            *entry == self.entries()[i as int],
            ascending(self.entries()),
    {
        proof {
            use_type_invariant(self);
        }
        &self.entries[i]
    }

    /// The value under a name.
    pub fn get(&self, name: &str) -> (value: Option<&V>)
        ensures
            match value {
                Some(value) => value_from(self.entries(), name@, 0) == Some(*value),
                None => value_from(self.entries(), name@, 0) is None,
            },
    {
        let mut i: usize = 0;
        while i < self.entries.len()
            invariant
                i <= self.entries@.len(),
                value_from(self.entries@, name@, 0) == value_from(
                    self.entries@,
                    name@,
                    i as int,
                ),
            decreases self.entries@.len() - i,
        {
            if text::same_text(self.entries[i].name.as_str(), name) {
                return Some(&self.entries[i].value);
            }
            i += 1;
        }
        None
    }
}

/// No name stands twice in ascending entries: what is found under a name is all that is there.
pub proof fn law_names_are_unique<V>(entries: Seq<Entry<V>>, i: int)
    requires
        ascending(entries),
        0 <= i < entries.len(),
    ensures
        value_from(entries, entries[i].name@, 0) == Some(entries[i].value),
{
    lemma_value_is_found(entries, i, 0);
}

proof fn lemma_value_is_found<V>(entries: Seq<Entry<V>>, i: int, from: int)
    requires
        ascending(entries),
        0 <= from <= i < entries.len(),
    ensures
        value_from(entries, entries[i].name@, from) == Some(entries[i].value),
    decreases i - from,
{
    if from < i {
        text::lemma_precedes_total(entries[i].name@, entries[i].name@);
        assert(text::precedes(entries[from].name@, entries[i].name@));
        lemma_value_is_found(entries, i, from + 1);
    }
}

proof fn lemma_value_of<V>(entries: Seq<Entry<V>>, name: Seq<char>, from: int)
    requires
        0 <= from,
    ensures
        match value_from(entries, name, from) {
            Some(value) => exists|k: int|
                from <= k < entries.len() && (#[trigger] entries[k]).name@ == name
                    && entries[k].value == value,
            None => forall|k: int|
                from <= k < entries.len() ==> (#[trigger] entries[k]).name@ != name,
        },
    decreases entries.len() - from,
{
    if from < entries.len() && entries[from].name@ != name {
        lemma_value_of(entries, name, from + 1);
    }
}

/// What is read by a name is the value of an entry of that name, and nothing is read exactly where
/// there is no such entry.
pub proof fn law_value_is_read_by_its_name<V>(entries: Seq<Entry<V>>, name: Seq<char>, i: int)
    ensures
        match value_from(entries, name, 0) {
            Some(value) => exists|k: int|
                0 <= k < entries.len() && (#[trigger] entries[k]).name@ == name
                    && entries[k].value == value,
            None => 0 <= i < entries.len() ==> entries[i].name@ != name,
        },
{
    lemma_value_of(entries, name, 0);
}

/// A value that was put in under a name is what is read by that name, and what is read by any other
/// name is what was read before.
pub proof fn law_put_value_is_read_back<V>(
    entries: Seq<Entry<V>>,
    entry: Entry<V>,
    other: Seq<char>,
)
    requires
        ascending(entries),
        other != entry.name@,
    ensures
        ascending(inserted(entries, entry)),
        value_from(inserted(entries, entry), entry.name@, 0) == Some(entry.value),
        value_from(inserted(entries, entry), other, 0) == value_from(entries, other, 0),
{
    let name = entry.name@;
    let at = place_from(entries, name, 0);
    let after = inserted(entries, entry);
    lemma_place(entries, name, 0);
    lemma_inserted_ascends(entries, entry);
    assert(after[at] == entry);
    law_names_are_unique(after, at);
    lemma_value_of(entries, other, 0);
    lemma_value_of(after, other, 0);
    let replaced = at < entries.len() && entries[at].name@ == name;
    match value_from(entries, other, 0) {
        Some(value) => {
            let k = choose|k: int|
                0 <= k < entries.len() && (#[trigger] entries[k]).name@ == other
                    && entries[k].value == value;
            let moved = if replaced || k < at {
                k
            } else {
                k + 1
            };
            assert(after[moved] == entries[k]);
            law_names_are_unique(after, moved);
        },
        None => {
            assert forall|k: int| 0 <= k < after.len() implies (#[trigger] after[k]).name@
                != other by {
                if k != at {
                    let from = if replaced || k < at {
                        k
                    } else {
                        k - 1
                    };
                    assert(after[k] == entries[from]);
                }
            }
        },
    }
}

/// Of several entries of one name the last one is kept.
pub proof fn law_last_entry_of_a_name_is_kept<V>(entries: Seq<Entry<V>>, i: int)
    requires
        0 <= i < entries.len(),
        forall|k: int| i < k < entries.len() ==> (#[trigger] entries[k]).name@ != entries[i].name@,
    ensures
        value_from(collected(entries, entries.len() as int), entries[i].name@, 0) == Some(
            entries[i].value,
        ),
        ascending(collected(entries, entries.len() as int)),
{
    lemma_collected(entries, i, entries.len() as int);
}

proof fn lemma_collected<V>(entries: Seq<Entry<V>>, i: int, count: int)
    requires
        0 <= i < count <= entries.len(),
        forall|k: int| i < k < entries.len() ==> (#[trigger] entries[k]).name@ != entries[i].name@,
    ensures
        value_from(collected(entries, count), entries[i].name@, 0) == Some(entries[i].value),
        ascending(collected(entries, count)),
    decreases count,
{
    lemma_collected_ascends(entries, count - 1);
    let before = collected(entries, count - 1);
    if count - 1 == i {
        lemma_inserted_ascends(before, entries[i]);
        lemma_place(before, entries[i].name@, 0);
        let at = place_from(before, entries[i].name@, 0);
        assert(inserted(before, entries[i])[at] == entries[i]);
        law_names_are_unique(inserted(before, entries[i]), at);
    } else {
        lemma_collected(entries, i, count - 1);
        law_put_value_is_read_back(before, entries[count - 1], entries[i].name@);
    }
}

proof fn lemma_collected_ascends<V>(entries: Seq<Entry<V>>, count: int)
    requires
        0 <= count <= entries.len(),
    ensures
        ascending(collected(entries, count)),
    decreases count,
{
    if count > 0 {
        lemma_collected_ascends(entries, count - 1);
        lemma_inserted_ascends(collected(entries, count - 1), entries[count - 1]);
    }
}

} // verus!

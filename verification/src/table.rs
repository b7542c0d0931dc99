//! Keyed tables: at most one row for each key.

use crate::pipe_list::same_text;
use vstd::prelude::*;

verus! {

struct Row<V> {
    key: String,
    value: V,
}

/// A table of rows with a text key, unique among the rows. Its view is the
/// map from each key to the view of the value stored under it.
pub struct Table<V> {
    rows: Vec<Row<V>>,
}

spec fn holds<V>(rows: Seq<Row<V>>, key: Seq<char>) -> bool {
    exists|i: int| 0 <= i < rows.len() && (#[trigger] rows[i]).key@ == key
}

spec fn place_of<V>(rows: Seq<Row<V>>, key: Seq<char>) -> int {
    choose|i: int| 0 <= i < rows.len() && (#[trigger] rows[i]).key@ == key
}

spec fn distinct_keys<V>(rows: Seq<Row<V>>) -> bool {
    forall|i: int, j: int|
        0 <= i < j < rows.len() ==> (#[trigger] rows[i]).key@ != (#[trigger] rows[j]).key@
}

spec fn contents<V: View>(rows: Seq<Row<V>>) -> Map<Seq<char>, V::V> {
    Map::new(|key: Seq<char>| holds(rows, key), |key: Seq<char>| rows[place_of(rows, key)].value@)
}

proof fn lemma_row_is_content<V: View>(rows: Seq<Row<V>>, i: int)
    requires
        distinct_keys(rows),
        0 <= i < rows.len(),
    ensures
        contents(rows).contains_key(rows[i].key@),
        contents(rows)[rows[i].key@] == rows[i].value@,
{
    let key = rows[i].key@;
    assert(holds(rows, key));
    let p = place_of(rows, key);
    assert(rows[p].key@ == key);
    if p < i {
        assert(rows[p].key@ != rows[i].key@);
    } else if i < p {
        assert(rows[i].key@ != rows[p].key@);
    }
}

impl<V: View> View for Table<V> {
    type V = Map<Seq<char>, V::V>;

    closed spec fn view(&self) -> Map<Seq<char>, V::V> {
        contents(self.rows@)
    }
}

impl<V> Table<V> {
    #[verifier::type_invariant]
    spec fn well_formed(self) -> bool {
        distinct_keys(self.rows@)
    }
}

impl<V: View> Table<V> {
    /// The table without rows.
    pub fn new() -> (table: Self)
        ensures
            table@ == Map::<Seq<char>, V::V>::empty(),
    {
        let table = Table { rows: Vec::new() };
        assert(table@ =~= Map::<Seq<char>, V::V>::empty());
        table
    }

    fn take_rows(&mut self) -> (rows: Vec<Row<V>>)
        ensures
            rows == old(self).rows,
            final(self).rows@.len() == 0,
    {
        let mut rows: Vec<Row<V>> = Vec::new();
        core::mem::swap(&mut self.rows, &mut rows);
        rows
    }

    fn find(&self, key: &str) -> (at: Option<usize>)
        ensures
            match at {
                Some(i) => i < self.rows.len() && self.rows[i as int].key@ == key@,
                None => !holds(self.rows@, key@),
            },
    {
        let mut i: usize = 0;
        while i < self.rows.len()
            invariant
                i <= self.rows.len(),
                forall|j: int| 0 <= j < i ==> (#[trigger] self.rows[j]).key@ != key@,
            decreases self.rows.len() - i,
        {
            if same_text(self.rows[i].key.as_str(), key) {
                return Some(i);
            }
            i += 1;
        }
        None
    }

    /// The value stored under `key`, if there is a row for it.
    pub fn get(&self, key: &str) -> (found: Option<&V>)
        ensures
            match found {
                Some(value) => self@.contains_key(key@) && self@[key@] == value@,
                None => !self@.contains_key(key@),
            },
    {
        proof {
            use_type_invariant(self);
        }
        match self.find(key) {
            Some(i) => {
                proof {
                    lemma_row_is_content(self.rows@, i as int);
                }
                Some(&self.rows[i].value)
            },
            None => None,
        }
    }

    /// Whether there is a row for `key`.
    pub fn contains(&self, key: &str) -> (present: bool)
        ensures
            present == self@.contains_key(key@),
    {
        self.get(key).is_some()
    }

    /// Adds a row for a key that has none. A key that has a row keeps it, and
    /// the call reports `false`.
    pub fn insert(&mut self, key: String, value: V) -> (added: bool)
        ensures
            added == !old(self)@.contains_key(key@),
            final(self)@ == if added {
                old(self)@.insert(key@, value@)
            } else {
                old(self)@
            },
    {
        proof {
            use_type_invariant(&*self);
        }
        match self.find(key.as_str()) {
            Some(_) => false,
            None => {
                let ghost before = self.rows@;
                let ghost row = Row { key, value };
                let mut rows = self.take_rows();
                rows.push(Row { key, value });
                proof {
                    lemma_pushed(before, row);
                }
                self.rows = rows;
                true
            },
        }
    }

    /// Stores `value` under `key`, in place of the row that the key had, if
    /// any.
    pub fn put(&mut self, key: String, value: V)
        ensures
            final(self)@ == old(self)@.insert(key@, value@),
    {
        proof {
            use_type_invariant(&*self);
        }
        let ghost before = self.rows@;
        let ghost row = Row { key, value };
        match self.find(key.as_str()) {
            Some(i) => {
                let mut rows = self.take_rows();
                rows.set(i, Row { key, value });
                proof {
                    lemma_replaced(before, i as int, row);
                }
                self.rows = rows;
            },
            None => {
                let mut rows = self.take_rows();
                rows.push(Row { key, value });
                proof {
                    lemma_pushed(before, row);
                }
                self.rows = rows;
            },
        }
    }

    /// Removes the row of `key`, and reports how many rows that removed: one,
    /// or none where the key had no row.
    pub fn delete(&mut self, key: &str) -> (removed: usize)
        ensures
            removed == if old(self)@.contains_key(key@) {
                1usize
            } else {
                0usize
            },
            final(self)@ == old(self)@.remove(key@),
    {
        proof {
            use_type_invariant(&*self);
        }
        let ghost before = self.rows@;
        match self.find(key) {
            Some(i) => {
                let mut rows = self.take_rows();
                rows.remove(i);
                proof {
                    lemma_removed(before, i as int);
                }
                self.rows = rows;
                1
            },
            None => {
                assert(self@ =~= old(self)@.remove(key@));
                0
            },
        }
    }

    /// Removes every row.
    pub fn clear(&mut self)
        ensures
            final(self)@ == Map::<Seq<char>, V::V>::empty(),
    {
        self.rows = Vec::new();
        assert(self@ =~= Map::<Seq<char>, V::V>::empty());
    }

    /// The keys that have a row, each once.
    pub fn keys(&self) -> (keys: Vec<String>)
        ensures
            keys.deep_view().no_duplicates(),
            keys.deep_view().to_set() == self@.dom(),
    {
        proof {
            use_type_invariant(self);
        }
        let mut keys: Vec<String> = Vec::new();
        let mut i: usize = 0;
        while i < self.rows.len()
            invariant
                i <= self.rows.len(),
                keys.len() == i,
                forall|j: int| 0 <= j < i ==> (#[trigger] keys[j])@ == self.rows[j].key@,
            decreases self.rows.len() - i,
        {
            keys.push(self.rows[i].key.clone());
            i += 1;
        }
        proof {
            let names = keys.deep_view();
            assert forall|a: int, b: int| 0 <= a < names.len() && 0 <= b < names.len() && a != b implies names[a] != names[b] by {
                assert(names[a] == keys[a]@);
                assert(names[b] == keys[b]@);
                if a < b {
                    assert(self.rows[a].key@ != self.rows[b].key@);
                } else {
                    assert(self.rows[b].key@ != self.rows[a].key@);
                }
            }
            assert forall|key: Seq<char>| names.to_set().contains(key) <==> self@.dom().contains(key) by {
                if names.contains(key) {
                    let a = choose|a: int| 0 <= a < names.len() && names[a] == key;
                    assert(keys[a]@ == self.rows[a].key@);
                    assert(holds(self.rows@, key));
                }
                if holds(self.rows@, key) {
                    let a = place_of(self.rows@, key);
                    assert(names[a] == keys[a]@);
                }
            }
            assert(names.to_set() =~= self@.dom());
        }
        keys
    }
}

impl<V: View + Copy> Table<V> {
    /// The rows, each once, as pairs of key and value.
    pub fn rows(&self) -> (rows: Vec<(String, V)>)
        ensures
            forall|i: int|
                0 <= i < rows.len() ==> self@.contains_key((#[trigger] rows[i]).0@) && self@[rows[i].0@]
                    == rows[i].1@,
            forall|i: int, j: int|
                0 <= i < j < rows.len() ==> (#[trigger] rows[i]).0@ != (#[trigger] rows[j]).0@,
            forall|key: Seq<char>|
                self@.contains_key(key) ==> exists|i: int|
                    0 <= i < rows.len() && (#[trigger] rows[i]).0@ == key,
    {
        proof {
            use_type_invariant(self);
        }
        let mut rows: Vec<(String, V)> = Vec::new();
        let mut i: usize = 0;
        while i < self.rows.len()
            invariant
                i <= self.rows.len(),
                rows.len() == i,
                forall|j: int|
                    0 <= j < i ==> (#[trigger] rows[j]).0@ == self.rows[j].key@ && rows[j].1
                        == self.rows[j].value,
            decreases self.rows.len() - i,
        {
            rows.push((self.rows[i].key.clone(), self.rows[i].value));
            i += 1;
        }
        proof {
            assert forall|j: int| 0 <= j < rows.len() implies self@.contains_key(
                (#[trigger] rows[j]).0@,
            ) && self@[rows[j].0@] == rows[j].1@ by {
                lemma_row_is_content(self.rows@, j);
            }
            assert forall|a: int, b: int| 0 <= a < b < rows.len() implies (#[trigger] rows[a]).0@ != (
            #[trigger] rows[b]).0@ by {
                assert(self.rows[a].key@ != self.rows[b].key@);
            }
            assert forall|key: Seq<char>| self@.contains_key(key) implies exists|a: int|
                0 <= a < rows.len() && (#[trigger] rows[a]).0@ == key by {
                let a = place_of(self.rows@, key);
                assert(rows[a].0@ == key);
            }
        }
        rows
    }
}

proof fn lemma_pushed<V: View>(rows: Seq<Row<V>>, row: Row<V>)
    requires
        distinct_keys(rows),
        !holds(rows, row.key@),
    ensures
        distinct_keys(rows.push(row)),
        contents(rows.push(row)) == contents(rows).insert(row.key@, row.value@),
{
    let longer = rows.push(row);
    assert forall|i: int, j: int| 0 <= i < j < longer.len() implies (#[trigger] longer[i]).key@ != (
    #[trigger] longer[j]).key@ by {
        if j == rows.len() {
            assert(rows[i].key@ != row.key@);
        } else {
            assert(rows[i].key@ != rows[j].key@);
        }
    }
    assert forall|key: Seq<char>| holds(longer, key) <==> (holds(rows, key) || key == row.key@) by {
        if holds(longer, key) {
            let i = place_of(longer, key);
            if i < rows.len() {
                assert(rows[i].key@ == key);
            }
        }
        if holds(rows, key) {
            let i = place_of(rows, key);
            assert(longer[i].key@ == key);
        }
        if key == row.key@ {
            assert(longer[rows.len() as int].key@ == key);
        }
    }
    assert forall|key: Seq<char>| holds(longer, key) implies #[trigger] contents(longer)[key] == contents(
        rows,
    ).insert(row.key@, row.value@)[key] by {
        let i = place_of(longer, key);
        lemma_row_is_content(longer, i);
        if i < rows.len() {
            assert(longer[i] == rows[i]);
            lemma_row_is_content(rows, i);
        }
    }
    assert(contents(longer) =~= contents(rows).insert(row.key@, row.value@));
}

proof fn lemma_replaced<V: View>(rows: Seq<Row<V>>, at: int, row: Row<V>)
    requires
        distinct_keys(rows),
        0 <= at < rows.len(),
        rows[at].key@ == row.key@,
    ensures
        distinct_keys(rows.update(at, row)),
        contents(rows.update(at, row)) == contents(rows).insert(row.key@, row.value@),
{
    let changed = rows.update(at, row);
    assert forall|i: int, j: int| 0 <= i < j < changed.len() implies (#[trigger] changed[i]).key@ != (
    #[trigger] changed[j]).key@ by {
        assert(rows[i].key@ != rows[j].key@);
    }
    assert forall|key: Seq<char>| holds(changed, key) <==> (holds(rows, key) || key == row.key@) by {
        if holds(changed, key) {
            let i = place_of(changed, key);
            assert(rows[i].key@ == key);
        }
        if holds(rows, key) {
            let i = place_of(rows, key);
            assert(changed[i].key@ == key);
        }
        if key == row.key@ {
            assert(changed[at].key@ == key);
        }
    }
    assert forall|key: Seq<char>| holds(changed, key) implies #[trigger] contents(changed)[key] == contents(
        rows,
    ).insert(row.key@, row.value@)[key] by {
        let i = place_of(changed, key);
        lemma_row_is_content(changed, i);
        if i != at {
            assert(changed[i] == rows[i]);
            lemma_row_is_content(rows, i);
        }
    }
    assert(contents(changed) =~= contents(rows).insert(row.key@, row.value@));
}

proof fn lemma_removed<V: View>(rows: Seq<Row<V>>, at: int)
    requires
        distinct_keys(rows),
        0 <= at < rows.len(),
    ensures
        distinct_keys(rows.remove(at)),
        contents(rows.remove(at)) == contents(rows).remove(rows[at].key@),
{
    let fewer = rows.remove(at);
    let gone = rows[at].key@;
    assert forall|i: int| 0 <= i < fewer.len() implies #[trigger] fewer[i] == rows[if i < at {
        i
    } else {
        i + 1
    }] by {}
    assert forall|i: int, j: int| 0 <= i < j < fewer.len() implies (#[trigger] fewer[i]).key@ != (
    #[trigger] fewer[j]).key@ by {
        let a = if i < at { i } else { i + 1 };
        let b = if j < at { j } else { j + 1 };
        assert(rows[a].key@ != rows[b].key@);
    }
    assert forall|key: Seq<char>| holds(fewer, key) <==> (holds(rows, key) && key != gone) by {
        if holds(fewer, key) {
            let i = place_of(fewer, key);
            let a = if i < at { i } else { i + 1 };
            assert(rows[a].key@ == key);
            if a < at {
                assert(rows[a].key@ != rows[at].key@);
            } else {
                assert(rows[at].key@ != rows[a].key@);
            }
        }
        if holds(rows, key) && key != gone {
            let a = place_of(rows, key);
            let i = if a < at { a } else { a - 1 };
            assert(fewer[i].key@ == key);
        }
    }
    assert forall|key: Seq<char>| holds(fewer, key) implies #[trigger] contents(fewer)[key] == contents(
        rows,
    ).remove(gone)[key] by {
        let i = place_of(fewer, key);
        let a = if i < at { i } else { i + 1 };
        lemma_row_is_content(fewer, i);
        lemma_row_is_content(rows, a);
    }
    assert(contents(fewer) =~= contents(rows).remove(gone));
}

} // verus!

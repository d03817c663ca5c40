//! What a description says of single signals, found by message number and
//! signal name.
//!
//! The table is a list that is searched from its end. A hash map would need
//! a key that holds a string, and vstd states how a hash map behaves only
//! for keys whose hashing it models, which are the integers: of a map with
//! such a key not even that an inserted key is in it could be proved.

use crate::table::collect;
use crate::text::same_text;
use vstd::prelude::*;

verus! {

/// A table from (message number, signal name) to a value. A later entry for
/// a key replaces an earlier one.
pub struct SignalTable<T> {
    entries: Vec<(u32, String, T)>,
}

impl<T> SignalTable<T> {
    /// The entries in the order in which they were made.
    pub closed spec fn entries(&self) -> Seq<Option<((u32, Seq<char>), T)>> {
        self.entries@.map_values(|e: (u32, String, T)| Some(((e.0, e.1@), e.2)))
    }
}

impl<T> View for SignalTable<T> {
    type V = Map<(u32, Seq<char>), T>;

    open spec fn view(&self) -> Map<(u32, Seq<char>), T> {
        collect(self.entries())
    }
}

impl<T> SignalTable<T> {
    /// The empty table.
    pub fn new() -> (table: Self)
        ensures
            table@ == Map::<(u32, Seq<char>), T>::empty(),
    {
        let table = SignalTable { entries: Vec::new() };
        table
    }

    /// Enters `value` for the signal `name` of message `id`.
    pub fn insert(&mut self, id: u32, name: String, value: T)
        ensures
            final(self)@ == old(self)@.insert((id, name@), value),
    {
        let ghost before = self.entries();
        self.entries.push((id, name, value));
        assert(self.entries().drop_last() == before);
    }

    /// The value entered last for the signal `name` of message `id`.
    pub fn get(&self, id: u32, name: &str) -> (found: Option<&T>)
        ensures
            match found {
                Some(value) => self@.contains_key((id, name@)) && self@[(id, name@)] == *value,
                None => !self@.contains_key((id, name@)),
            },
    {
        let ghost all = self.entries();
        let ghost key = (id, name@);
        let mut i: usize = self.entries.len();
        assert(all.take(i as int) == all);
        while i > 0
            invariant
                i <= self.entries.len(),
                all == self.entries(),
                key == (id, name@),
                collect(all).contains_key(key) == collect(all.take(i as int)).contains_key(key),
                collect(all).contains_key(key) ==> collect(all)[key] == collect(
                    all.take(i as int),
                )[key],
            decreases i,
        {
            let entry = &self.entries[i - 1];
            proof {
                assert(all.take(i as int).drop_last() == all.take(i - 1));
            }
            if entry.0 == id && same_text(entry.1.as_str(), name) {
                return Some(&entry.2);
            }
            i = i - 1;
        }
        None
    }
}

} // verus!

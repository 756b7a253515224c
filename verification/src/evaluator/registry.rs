//! The table of builtins: each name with its minimum arity and its handle,
//! and the host that runs them.

use super::{Value, ValueView};
use vstd::hash_map::StringHashMap;
use vstd::prelude::*;

verus! {

/// The builtins that the evaluator knows, in a hash map keyed by their
/// names, and the host that is asked to run them. The handle of a builtin
/// is the number of builtins that were registered before it.
pub struct Builtins<H> {
    entries: StringHashMap<(usize, usize)>,
    host: H,
}

/// The builtin that `name` stands for, if the table has the name: a value
/// with its minimum arity and its handle.
pub open spec fn builtin_of(table: Map<Seq<char>, (usize, usize)>, name: Seq<char>) -> Option<
    ValueView,
> {
    if table.contains_key(name) {
        Some(ValueView::BuiltinFunction(table[name].0, table[name].1))
    } else {
        None
    }
}

impl<H> Builtins<H> {
    /// The table: for each name its minimum arity and its handle.
    pub closed spec fn table(&self) -> Map<Seq<char>, (usize, usize)> {
        self.entries@
    }

    /// The host that runs the builtins.
    pub closed spec fn host(&self) -> H {
        self.host
    }

    /// An empty table for the builtins of `host`.
    pub fn new(host: H) -> (builtins: Self)
        ensures
            builtins.table() == Map::<Seq<char>, (usize, usize)>::empty(),
            builtins.host() == host,
    {
        Builtins { entries: StringHashMap::new(), host }
    }

    /// The host itself.
    pub fn unit(&self) -> (host: &H)
        ensures
            *host == self.host(),
    {
        &self.host
    }

    /// The builtin that `name` stands for, if the table has the name.
    pub fn get(&self, name: &String) -> (found: Option<Value>)
        ensures
            match found {
                Some(value) => builtin_of(self.table(), name@) == Some(value@),
                None => builtin_of(self.table(), name@) is None,
            },
    {
        match self.entries.get(name.as_str()) {
            Some(entry) => Some(Value::BuiltinFunction(entry.0, entry.1)),
            None => None,
        }
    }

    /// Registers `name` with its minimum arity and returns its handle, the
    /// number of builtins in the table before it. A name that the table has
    /// already is not registered again: the table stays as it is and `None`
    /// is returned.
    pub fn register(&mut self, name: String, minimum_arity: usize) -> (handle: Option<usize>)
        ensures
            final(self).host() == old(self).host(),
            match handle {
                Some(place) => {
                    &&& !old(self).table().contains_key(name@)
                    &&& place == old(self).table().len()
                    &&& final(self).table() == old(self).table().insert(
                        name@,
                        (minimum_arity, place),
                    )
                },
                None => {
                    &&& old(self).table().contains_key(name@)
                    &&& final(self).table() == old(self).table()
                },
            },
    {
        if self.entries.contains_key(name.as_str()) {
            return None;
        }
        let place = self.entries.len();
        self.entries.insert(name, (minimum_arity, place));
        Some(place)
    }
}

} // verus!

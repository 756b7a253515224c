//! The variables of one scope: a mapping from names to values.

use super::{Value, ValueView};
use vstd::hash_map::StringHashMap;
use vstd::prelude::*;

verus! {

/// The variables of one scope, in a hash map keyed by their names.
pub struct Variables {
    bindings: StringHashMap<Value>,
}

impl View for Variables {
    type V = Map<Seq<char>, ValueView>;

    closed spec fn view(&self) -> Map<Seq<char>, ValueView> {
        self.bindings@.map_values(|value: Value| value@)
    }
}

impl Variables {
    /// A scope without variables.
    pub fn new() -> (variables: Self)
        ensures
            variables@ == Map::<Seq<char>, ValueView>::empty(),
    {
        let variables = Variables { bindings: StringHashMap::new() };
        assert(variables@ =~= Map::<Seq<char>, ValueView>::empty());
        variables
    }

    /// A copy of the value of `name`, if the scope has the name.
    pub fn get(&self, name: &String) -> (found: Option<Value>)
        ensures
            match found {
                Some(value) => self@.contains_key(name@) && self@[name@] == value@,
                None => !self@.contains_key(name@),
            },
    {
        match self.bindings.get(name.as_str()) {
            Some(value) => Some(value.clone()),
            None => None,
        }
    }

    /// Binds `name` to `value`, in place of what it was bound to.
    pub fn insert(&mut self, name: String, value: Value)
        ensures
            final(self)@ == old(self)@.insert(name@, value@),
    {
        self.bindings.insert(name, value);
        assert(self@ =~= old(self)@.insert(name@, value@));
    }
}

} // verus!

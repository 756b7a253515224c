//! The parameter names of a function literal: an insertion-ordered set of
//! names, kept in a `LinkedHashSet`.
//!
//! The set is opaque to the verifier. [`names_of`] names what it holds, and
//! the functions below state over that name what each method of the set does.

use linked_hash_set::LinkedHashSet;
use vstd::prelude::*;

verus! {

#[verifier::external_type_specification]
#[verifier::external_body]
#[verifier::reject_recursive_types(T)]
#[verifier::reject_recursive_types(S)]
pub struct ExLinkedHashSet<T, S>(LinkedHashSet<T, S>);

/// The names that a set holds, in the order of their insertion.
pub uninterp spec fn names_of(set: LinkedHashSet<String>) -> Seq<Seq<char>>;

/// A set without names.
///
/// Calls `LinkedHashSet::new`, which creates an empty set.
#[verifier::external_body]
pub(crate) fn no_names() -> (set: LinkedHashSet<String>)
    ensures
        names_of(set) == Seq::<Seq<char>>::empty(),
{
    LinkedHashSet::new()
}

/// Whether the set holds `name`.
///
/// Calls `LinkedHashSet::contains`, which looks the value up in the map
/// behind the set and says whether an equal one is present.
#[verifier::external_body]
pub(crate) fn has_name(set: &LinkedHashSet<String>, name: &String) -> (present: bool)
    ensures
        present == names_of(*set).contains(name@),
{
    set.contains(name)
}

/// Puts `name` last in the set, and says whether it was new.
///
/// Calls `LinkedHashSet::insert`. A name that the set did not hold is
/// appended and `true` is returned. A name that it held is moved to the end
/// of the order and `false` is returned.
#[verifier::external_body]
pub(crate) fn add_name(set: &mut LinkedHashSet<String>, name: String) -> (fresh: bool)
    ensures
        fresh == !names_of(*old(set)).contains(name@),
        fresh ==> names_of(*final(set)) == names_of(*old(set)).push(name@),
        !fresh ==> names_of(*final(set)) == names_of(*old(set)).remove_value(name@).push(name@),
{
    set.insert(name)
}

/// How many names the set holds.
///
/// Calls `LinkedHashSet::len`, the number of elements in the set.
#[verifier::external_body]
pub(crate) fn count_names(set: &LinkedHashSet<String>) -> (count: usize)
    ensures
        count == names_of(*set).len(),
{
    set.len()
}

/// The names of the set as owned strings, in the order of their insertion.
///
/// Calls `LinkedHashSet::iter`, which visits the values in insertion order,
/// and clones each name into the vector.
#[verifier::external_body]
pub(crate) fn list_names(set: &LinkedHashSet<String>) -> (names: Vec<String>)
    ensures
        names@.len() == names_of(*set).len(),
        forall|i: int| 0 <= i < names@.len() ==> (#[trigger] names@[i])@ == names_of(*set)[i],
{
    set.iter().cloned().collect()
}

} // verus!

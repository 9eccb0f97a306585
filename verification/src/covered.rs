//! The set of catalogue indices already covered by an association list, kept
//! in fnv's hash set (std's `HashSet` with the deterministic FNV-1a hasher),
//! behind trusted wrappers whose contracts speak of the set's contents.

use vstd::prelude::*;
use fnv::FnvHashSet;

verus! {

/// fnv's hasher type, opaque here; only its deterministic behaviour matters,
/// and only to the wrappers below.
#[verifier::external_type_specification]
#[verifier::external_body]
pub struct ExFnvHasher(fnv::FnvHasher);

/// std's `BuildHasherDefault`, the hash-builder fnv's set alias uses.
#[verifier::external_type_specification]
#[verifier::external_body]
#[verifier::reject_recursive_types(H)]
pub struct ExBuildHasherDefault<H>(std::hash::BuildHasherDefault<H>);

/// The mathematical contents of a covered-index set.
pub uninterp spec fn covered_indices(s: FnvHashSet<usize>) -> Set<usize>;

/// Relies on std's `HashSet::default` (through fnv's `FnvHashSet` alias): a
/// freshly built set is empty.
#[verifier::external_body]
pub(crate) fn covered_new() -> (s: FnvHashSet<usize>)
    ensures
        covered_indices(s) == Set::<usize>::empty(),
{
    FnvHashSet::default()
}

/// Relies on std's `HashSet::insert` with fnv's deterministic FNV-1a hasher:
/// after the call the set holds the old contents plus `value`.
#[verifier::external_body]
pub(crate) fn covered_insert(s: &mut FnvHashSet<usize>, value: usize)
    ensures
        covered_indices(*final(s)) == covered_indices(*old(s)).insert(value),
{
    s.insert(value);
}

/// Relies on std's `HashSet::contains` with fnv's deterministic FNV-1a
/// hasher: whether `value` is in the set.
#[verifier::external_body]
pub(crate) fn covered_contains(s: &FnvHashSet<usize>, value: usize) -> (r: bool)
    ensures
        r == covered_indices(*s).contains(value),
{
    s.contains(&value)
}

} // verus!

//! The cross-reference sets are hashed path sets from the `ahash` crate,
//! held behind a small trusted surface.
//!
//! A set's contents are abstracted as the `Set` of the views of the `String`
//! elements it holds; `String` equality and hashing agree with view equality,
//! so this abstraction is faithful to the underlying `ahash::AHashSet`.

use vstd::prelude::*;

verus! {

#[verifier::external_type_specification]
#[verifier::external_body]
#[verifier::reject_recursive_types(T)]
#[verifier::reject_recursive_types(S)]
pub struct ExAHashSet<T, S>(ahash::AHashSet<T, S>);

#[verifier::external_type_specification]
#[verifier::external_body]
pub struct ExARandomState(ahash::RandomState);

/// The views of the strings held by an `ahash` path set.
pub uninterp spec fn path_set_contents(s: ahash::AHashSet<String>) -> Set<Seq<char>>;

/// Relies on `AHashSet::new`: a freshly created set is empty.
#[verifier::external_body]
pub fn path_set_new() -> (s: ahash::AHashSet<String>)
    ensures
        path_set_contents(s) == Set::<Seq<char>>::empty(),
{
    ahash::AHashSet::new()
}

/// Relies on `HashSet::insert` (through `AHashSet`'s `Deref`): afterwards the
/// set holds the new element besides everything it already held.
#[verifier::external_body]
pub fn path_set_insert(s: &mut ahash::AHashSet<String>, x: String)
    ensures
        path_set_contents(*final(s)) == path_set_contents(*old(s)).insert(x@),
{
    s.insert(x);
}

/// Relies on `HashSet::contains` (through `AHashSet`'s `Deref`), with `str`
/// borrowed from `String`: membership agrees with the abstract contents.
#[verifier::external_body]
pub fn path_set_contains(s: &ahash::AHashSet<String>, x: &str) -> (r: bool)
    ensures
        r == path_set_contents(*s).contains(x@),
{
    s.contains(x)
}

/// Relies on `Extend::<String>::extend` for `AHashSet`: afterwards the set
/// holds the union of both sets' elements.
#[verifier::external_body]
pub fn path_set_absorb(s: &mut ahash::AHashSet<String>, other: ahash::AHashSet<String>)
    ensures
        path_set_contents(*final(s)) == path_set_contents(*old(s)).union(
            path_set_contents(other),
        ),
{
    s.extend(other);
}

} // verus!

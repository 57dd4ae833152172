//! Trusted declarations for the persistent hash containers of the `im`
//! crate, which the compiler uses for its environments and the parser for
//! its duplicate-name checks.  Each wrapper's contract states what the
//! crate's source shows of the one method it calls, over the container's
//! mathematical contents.

use vstd::prelude::*;

verus! {

#[verifier::external_type_specification]
#[verifier::external_body]
#[verifier::reject_recursive_types(K)]
#[verifier::reject_recursive_types(V)]
#[verifier::reject_recursive_types(S)]
pub struct ExImHashMap<K, V, S>(im::HashMap<K, V, S>);

#[verifier::external_type_specification]
#[verifier::external_body]
#[verifier::reject_recursive_types(A)]
#[verifier::reject_recursive_types(S)]
pub struct ExImHashSet<A, S>(im::HashSet<A, S>);

/// The entries of a compile-time environment: a map from names to stack
/// offsets.
pub uninterp spec fn env_entries(m: im::HashMap<String, i64>) -> Map<Seq<char>, i64>;

/// The members of a name set.
pub uninterp spec fn name_members(s: im::HashSet<String>) -> Set<Seq<char>>;

/// Relies on im::HashMap::new: the new map has no entries.
#[verifier::external_body]
pub fn env_new() -> (m: im::HashMap<String, i64>)
    ensures
        env_entries(m) =~= Map::empty(),
{
    im::HashMap::new()
}

/// Relies on im::HashMap's Clone: the clone has the same entries.
#[verifier::external_body]
pub fn env_clone(m: &im::HashMap<String, i64>) -> (r: im::HashMap<String, i64>)
    ensures
        env_entries(r) == env_entries(*m),
{
    m.clone()
}

/// Relies on im::HashMap::contains_key, which goes by String equality, that
/// is, by equality of the character sequences.
#[verifier::external_body]
pub fn env_contains(m: &im::HashMap<String, i64>, k: &String) -> (r: bool)
    ensures
        r == env_entries(*m).dom().contains(k@),
{
    m.contains_key(k)
}

/// Relies on im::HashMap::get: the value stored under an equal key, if any.
#[verifier::external_body]
pub fn env_get(m: &im::HashMap<String, i64>, k: &String) -> (r: Option<i64>)
    ensures
        r == if env_entries(*m).dom().contains(k@) {
            Some(env_entries(*m)[k@])
        } else {
            None::<i64>
        },
{
    match m.get(k) {
        Some(v) => Some(*v),
        None => None,
    }
}

/// Relies on im::HashMap::insert: the entry for the key is added or
/// replaced; all other entries stay.
#[verifier::external_body]
pub fn env_insert(m: &mut im::HashMap<String, i64>, k: String, v: i64)
    ensures
        env_entries(*final(m)) == env_entries(*old(m)).insert(k@, v),
{
    m.insert(k, v);
}

/// Relies on im::HashSet::new: the new set has no members.
#[verifier::external_body]
pub fn names_new() -> (s: im::HashSet<String>)
    ensures
        name_members(s) =~= Set::empty(),
{
    im::HashSet::new()
}

/// Relies on im::HashSet::contains, which goes by String equality.
#[verifier::external_body]
pub fn names_contains(s: &im::HashSet<String>, a: &String) -> (r: bool)
    ensures
        r == name_members(*s).contains(a@),
{
    s.contains(a)
}

/// Relies on im::HashSet::insert: the member is added; all others stay.
#[verifier::external_body]
pub fn names_insert(s: &mut im::HashSet<String>, a: String)
    ensures
        name_members(*final(s)) == name_members(*old(s)).insert(a@),
{
    s.insert(a);
}

} // verus!

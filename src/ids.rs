use rand::seq::IteratorRandom;
use vstd::prelude::*;

verus! {

/// Relies on `uuid::Uuid::new_v4` and its hyphenated text form: a random
/// identifier written as 36 characters.
#[verifier::external_body]
pub(crate) fn random_uuid_text() -> (r: String)
    ensures
        r@.len() == 36,
{
    uuid::Uuid::new_v4().to_string()
}

/// Relies on `uuid::Uuid::new_v4` and its simple text form: a random
/// identifier written as 32 characters, without hyphens.
#[verifier::external_body]
pub(crate) fn random_uuid_simple_text() -> (r: String)
    ensures
        r@.len() == 32,
{
    uuid::Uuid::new_v4().simple().to_string()
}

/// Relies on `rand::seq::IteratorRandom::choose` over the range `0..n` with
/// the thread-local generator: `None` exactly when the range is empty, and
/// otherwise an index below `n`.
#[verifier::external_body]
pub(crate) fn choose_below(n: usize) -> (r: Option<usize>)
    ensures
        r is None <==> n == 0,
        r matches Some(i) ==> i < n,
{
    (0..n).choose(&mut rand::rng())
}

} // verus!

//! The session store: two `moka` caches, keyed by text. This module states
//! what the caches hold and what their methods do to it.
//!
//! A cache is shared by all its clones. The contracts below hold of a cache
//! that has a single handle, which is how the server keeps its two caches.

use vstd::prelude::*;
use moka::sync::Cache;
use crate::server::{
    no_challenges, no_registrations, Challenge, ChallengeView, Registration, RegistrationView,
};

verus! {

#[verifier::external_type_specification]
#[verifier::external_body]
#[verifier::reject_recursive_types(K)]
#[verifier::reject_recursive_types(V)]
#[verifier::reject_recursive_types(S)]
pub struct ExCache<K, V, S>(Cache<K, V, S>);

/// The registrations that a cache holds, by user.
pub uninterp spec fn registration_entries(cache: Cache<String, Registration>) -> Map<
    Seq<char>,
    RegistrationView,
>;

/// The cache of registrations was built without a capacity limit and without
/// expiry, so that it keeps every entry until the entry is overwritten.
pub uninterp spec fn keeps_registrations(cache: Cache<String, Registration>) -> bool;

/// The challenges that a cache holds, by the identifier of the attempt.
pub uninterp spec fn challenge_entries(cache: Cache<String, Challenge>) -> Map<
    Seq<char>,
    ChallengeView,
>;

/// The cache of challenges was built without a capacity limit and without
/// expiry, so that it keeps every entry until the entry is overwritten.
pub uninterp spec fn keeps_challenges(cache: Cache<String, Challenge>) -> bool;

/// `moka::sync::Cache::builder().build()`: an empty cache with the builder's
/// defaults, which set no capacity limit, no time to live and no time to idle.
#[verifier::external_body]
pub(crate) fn new_registrations() -> (cache: Cache<String, Registration>)
    ensures
        registration_entries(cache) == no_registrations(),
        keeps_registrations(cache),
{
    Cache::builder().build()
}

/// `moka::sync::Cache::insert`: the value is held under the key, in place of
/// a value that was held under it; the other entries stay.
#[verifier::external_body]
pub(crate) fn insert_registration(
    cache: &mut Cache<String, Registration>,
    key: String,
    value: Registration,
)
    requires
        keeps_registrations(*old(cache)),
    ensures
        registration_entries(*final(cache)) == registration_entries(*old(cache)).insert(
            key@,
            value@,
        ),
        keeps_registrations(*final(cache)),
{
    cache.insert(key, value);
}

/// `moka::sync::Cache::get`: a clone of the value held under the key, if one
/// is held.
#[verifier::external_body]
pub(crate) fn get_registration(cache: &Cache<String, Registration>, key: &String) -> (r: Option<
    Registration,
>)
    requires
        keeps_registrations(*cache),
    ensures
        r is Some <==> registration_entries(*cache).dom().contains(key@),
        r matches Some(value) ==> value@ == registration_entries(*cache)[key@],
{
    cache.get(key)
}

/// `moka::sync::Cache::builder().build()`: an empty cache with the builder's
/// defaults, which set no capacity limit, no time to live and no time to idle.
#[verifier::external_body]
pub(crate) fn new_challenges() -> (cache: Cache<String, Challenge>)
    ensures
        challenge_entries(cache) == no_challenges(),
        keeps_challenges(cache),
{
    Cache::builder().build()
}

/// `moka::sync::Cache::insert`: the value is held under the key, in place of
/// a value that was held under it; the other entries stay.
#[verifier::external_body]
pub(crate) fn insert_challenge(cache: &mut Cache<String, Challenge>, key: String, value: Challenge)
    requires
        keeps_challenges(*old(cache)),
    ensures
        challenge_entries(*final(cache)) == challenge_entries(*old(cache)).insert(key@, value@),
        keeps_challenges(*final(cache)),
{
    cache.insert(key, value);
}

/// `moka::sync::Cache::get`: a clone of the value held under the key, if one
/// is held.
#[verifier::external_body]
pub(crate) fn get_challenge(cache: &Cache<String, Challenge>, key: &String) -> (r: Option<
    Challenge,
>)
    requires
        keeps_challenges(*cache),
    ensures
        r is Some <==> challenge_entries(*cache).dom().contains(key@),
        r matches Some(value) ==> value@ == challenge_entries(*cache)[key@],
{
    cache.get(key)
}

} // verus!

//! Randomness: identifiers and scalars.

use vstd::prelude::*;
use rand::Rng;
use crate::bignat::BigNat;

verus! {

/// An ASCII letter or digit.
pub open spec fn is_alphanumeric(c: char) -> bool {
    ('0' <= c && c <= '9') || ('A' <= c && c <= 'Z') || ('a' <= c && c <= 'z')
}

/// A string of `length` ASCII letters and digits.
pub open spec fn is_identifier(text: Seq<char>, length: nat) -> bool {
    &&& text.len() == length
    &&& forall|i: int| 0 <= i < text.len() ==> is_alphanumeric(#[trigger] text[i])
}

/// `rand::Rng::sample` with `rand::distributions::Alphanumeric`, on the
/// thread's generator: one ASCII letter or digit, whichever is drawn.
#[verifier::external_body]
fn random_alphanumeric() -> (c: char)
    ensures
        is_alphanumeric(c),
{
    char::from(rand::thread_rng().sample(rand::distributions::Alphanumeric))
}

/// `String::push`: the character is appended.
#[verifier::external_body]
fn push_char(text: &mut String, c: char)
    ensures
        final(text)@ == old(text)@.push(c),
{
    text.push(c);
}

/// A random string of `size` ASCII letters and digits.
pub fn generate_random_string_of_length(size: usize) -> (r: String)
    ensures
        is_identifier(r@, size as nat),
{
    let mut text = String::new();
    let mut i: usize = 0;
    while i < size
        invariant
            i <= size,
            is_identifier(text@, i as nat),
        decreases size - i,
    {
        let c = random_alphanumeric();
        push_char(&mut text, c);
        i += 1;
    }
    text
}

/// A random number of `[1, upper_bound)`.
pub fn get_random_int_within_bound(upper_bound: &BigNat) -> (r: BigNat)
    requires
        upper_bound@ > 1,
    ensures
        1 <= r@ < upper_bound@,
{
    let lower_bound = BigNat::from_u32(1);
    BigNat::random_in_range(&lower_bound, upper_bound)
}

} // verus!

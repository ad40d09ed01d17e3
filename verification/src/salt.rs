//! Salt generation: a fresh URL-safe random text nonce per stored record.

use crate::error::NonceError;
use textnonce::TextNonce;
use vstd::prelude::*;
use vstd::utf8::is_ascii_chars;

verus! {

/// Relies on `textnonce::TextNonce::sized_urlsafe`: on success the nonce is an
/// ASCII string (URL-safe base64 characters) of exactly `n` characters; it
/// fails when `n` is below 16 or not divisible by 4, and can also fail when
/// the system clock is unreadable.
#[verifier::external_body]
fn fresh_nonce(n: usize) -> (r: Result<String, String>)
    ensures
        r matches Ok(s) ==> s@.len() == n && is_ascii_chars(s@),
        n < 16 || n % 4 != 0 ==> r is Err,
{
    match TextNonce::sized_urlsafe(n) {
        Ok(nonce) => Ok(nonce.into_string()),
        Err(why) => Err(why),
    }
}

/// Produce a random salt of exactly `n` ASCII characters (so also exactly `n`
/// bytes), drawn from the URL-safe base64 alphabet.  `n` must be at least 16
/// and divisible by 4, or the generator refuses it.
pub fn salt(n: usize) -> (r: Result<String, NonceError>)
    ensures
        r matches Ok(s) ==> s@.len() == n && is_ascii_chars(s@),
        n < 16 || n % 4 != 0 ==> r is Err,
{
    match fresh_nonce(n) {
        Ok(nonce) => Ok(nonce),
        Err(why) => Err(NonceError::from_message(why)),
    }
}

} // verus!

//! Error surface of the codec and of the storage plumbing around it.

use vstd::prelude::*;

verus! {

/// What can go wrong while encoding or decoding a record.
#[derive(Clone, Copy, Debug, PartialEq, Eq, Structural)]
pub enum Error {
    /// An identifier or key holds a character outside the safe alphabet.
    InvalidCharacter,
    /// The secret handed to `encode` is not exactly `SECRET_LEN` bytes.
    InvalidSecretLength,
    /// The salt generator could not produce a salt.
    RandomnessUnavailable,
    /// The slow-hash primitive rejected its parameters, the identifier does
    /// not fit into the salt, or the derived keystream is too short.
    KeyDerivation,
    /// Decoding produced bytes that are not valid text: the record was made
    /// by a different identifier, or was corrupted in storage.
    MalformedSecret,
}

/// A storage insert that touched no row.
#[derive(Clone, Copy, Debug, PartialEq, Eq, Structural)]
pub struct InsertionFailError;

/// A failure of the salt (nonce) generator, with the generator's message.
#[derive(Debug, Clone)]
pub struct NonceError {
    message: String,
}

impl NonceError {
    /// The message carried by the error.
    pub closed spec fn spec_message(&self) -> Seq<char> {
        self.message@
    }

    /// Wrap a generator message.
    pub fn from(s: &str) -> (r: Self)
        ensures
            r.spec_message() == s@,
    {
        NonceError { message: s.to_owned() }
    }

    /// Wrap an owned generator message.
    pub fn from_message(s: String) -> (r: Self)
        ensures
            r.spec_message() == s@,
    {
        NonceError { message: s }
    }

    /// Read the message back.
    pub fn message(&self) -> (r: &String)
        ensures
            r@ == self.spec_message(),
    {
        &self.message
    }
}

/// An identifier or key that holds a character outside the safe alphabet,
/// carrying the offending string.
#[derive(Debug, Clone)]
pub struct InvalidCharacterError {
    message: String,
}

impl InvalidCharacterError {
    /// The offending string carried by the error.
    pub closed spec fn spec_message(&self) -> Seq<char> {
        self.message@
    }

    /// Record the string that failed validation.
    pub fn from(s: &str) -> (r: Self)
        ensures
            r.spec_message() == s@,
    {
        InvalidCharacterError { message: s.to_owned() }
    }

    /// Read the offending string back.
    pub fn message(&self) -> (r: &String)
        ensures
            r@ == self.spec_message(),
    {
        &self.message
    }
}

} // verus!

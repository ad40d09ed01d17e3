//! The masking codec: derivation of a per-identifier index, derivation of a
//! keystream bound to the identifier and a random salt, and the XOR transform
//! that produces and consumes the three-field storage record.

use crate::error::Error;
use crate::util::all_safe_chars;
use crate::util::all_valid_key;
use crate::util::all_valid_uid;
use vstd::prelude::*;
use vstd::utf8::encode_utf8;
use vstd::utf8::is_ascii_chars_encode_utf8;
use vstd::utf8::valid_utf8;

verus! {

/// Byte length of a secret, of the salt, and of the ciphertext.
pub const SECRET_LEN: usize = 72;

/// Byte length of the index digest.
pub const INDEX_LEN: usize = 32;

/// The persisted record: the three byte columns of the key store.
pub struct Storage {
    /// Deterministic digest of the identifier; the lookup key.
    pub index: Vec<u8>,
    /// The XOR-masked secret.
    pub text: Vec<u8>,
    /// The random salt the record was made with.
    pub salt: Vec<u8>,
}

/// The digest that `blake3::hash` computes for the given input bytes.
pub uninterp spec fn blake3_digest(input: Seq<u8>) -> Seq<u8>;

/// The encoded hash string, as bytes, that `argon2::hash_encoded` computes
/// for the given password and salt under the default configuration.
pub uninterp spec fn argon2_encoded(password: Seq<u8>, salt: Seq<u8>) -> Seq<u8>;

/// The salt with its leading bytes overwritten by the identifier bytes; the
/// rest of the salt is untouched.
pub open spec fn mixed_salt(uid: Seq<u8>, salt: Seq<u8>) -> Seq<u8>
    recommends
        uid.len() <= salt.len(),
{
    uid + salt.subrange(uid.len() as int, salt.len() as int)
}

/// Byte-wise XOR of `data` against the leading bytes of `keystream`.
pub open spec fn mask_bytes(keystream: Seq<u8>, data: Seq<u8>) -> Seq<u8>
    recommends
        data.len() <= keystream.len(),
{
    Seq::new(data.len(), |i: int| keystream[i] ^ data[i])
}

/// The keystream a record determines: the slow hash of the record's index,
/// salted by the identifier-mixed salt.
pub open spec fn record_keystream(index: Seq<u8>, uid: Seq<u8>, salt: Seq<u8>) -> Seq<u8> {
    argon2_encoded(index, mixed_salt(uid, salt))
}

/// The password/salt lengths that the slow hash accepts.
pub open spec fn derivable(password: Seq<u8>, salt: Seq<u8>) -> bool {
    8 <= salt.len() <= 0xFFFF_FFFF && password.len() <= 0xFFFF_FFFF
}

/// Relies on `blake3::hash`: a pure, deterministic 32-byte digest of the
/// input bytes.
#[verifier::external_body]
fn blake3_hash(input: &[u8]) -> (r: Vec<u8>)
    ensures
        r@ == blake3_digest(input@),
        r@.len() == 32,
{
    blake3::hash(input).as_bytes().to_vec()
}

/// Relies on `argon2::hash_encoded` under `argon2::Config::default()`: the
/// encoded hash is a deterministic function of password and salt alone (the
/// cost parameters are fixed by that configuration), and the call fails
/// exactly when the salt is shorter than 8 bytes or the salt or password is
/// longer than `u32::MAX` bytes.
#[verifier::external_body]
fn argon2_hash_encoded(password: &[u8], salt: &[u8]) -> (r: Option<String>)
    ensures
        r matches Some(s) ==> encode_utf8(s@) == argon2_encoded(password@, salt@),
        r is Some <==> derivable(password@, salt@),
{
    argon2::hash_encoded(password, salt, &argon2::Config::default()).ok()
}

/// Relies on `String::from_utf8`: it succeeds exactly on valid UTF-8 input,
/// and then returns a string holding exactly the input bytes.
#[verifier::external_body]
fn bytes_to_string(bytes: Vec<u8>) -> (r: Option<String>)
    ensures
        r is Some <==> valid_utf8(bytes@),
        r matches Some(s) ==> encode_utf8(s@) == bytes@,
{
    match String::from_utf8(bytes) {
        Ok(s) => Some(s),
        Err(_) => None,
    }
}

/// Copy `uid` and then the bytes of `salt` past the length of `uid`.
fn mix_salt(uid: &Vec<u8>, salt: &Vec<u8>) -> (r: Vec<u8>)
    requires
        uid@.len() <= salt@.len(),
    ensures
        r@ == mixed_salt(uid@, salt@),
        r@.len() == salt@.len(),
{
    let mut out: Vec<u8> = Vec::new();
    let mut i: usize = 0;
    while i < uid.len()
        invariant
            i <= uid@.len(),
            out@ == uid@.subrange(0, i as int),
        decreases uid@.len() - i,
    {
        let b = uid[i];
        out.push(b);
        i += 1;
        proof {
            assert(out@ =~= uid@.subrange(0, i as int));
        }
    }
    proof {
        assert(out@ =~= uid@);
        assert(out@ =~= uid@ + salt@.subrange(uid@.len() as int, uid@.len() as int));
    }
    let mut j: usize = uid.len();
    while j < salt.len()
        invariant
            uid@.len() <= j <= salt@.len(),
            out@ == uid@ + salt@.subrange(uid@.len() as int, j as int),
        decreases salt@.len() - j,
    {
        let b = salt[j];
        out.push(b);
        j += 1;
        proof {
            assert(out@ =~= uid@ + salt@.subrange(uid@.len() as int, j as int));
        }
    }
    proof {
        assert(out@ =~= mixed_salt(uid@, salt@));
    }
    out
}

/// XOR each byte of `data` against the byte of `keystream` at the same
/// position.
fn xor_mask(keystream: &Vec<u8>, data: &Vec<u8>) -> (r: Vec<u8>)
    requires
        data@.len() <= keystream@.len(),
    ensures
        r@ == mask_bytes(keystream@, data@),
{
    let mut out: Vec<u8> = Vec::new();
    let mut i: usize = 0;
    while i < data.len()
        invariant
            i <= data@.len() <= keystream@.len(),
            out@.len() == i,
            forall|j: int| 0 <= j < i ==> out@[j] == (keystream@[j] ^ data@[j]),
        decreases data@.len() - i,
    {
        let b = keystream[i] ^ data[i];
        out.push(b);
        i += 1;
    }
    proof {
        assert(out@ =~= mask_bytes(keystream@, data@));
    }
    out
}

/// Derive the lookup index of an identifier: the 32-byte fast digest of its
/// bytes.  Pure and deterministic.
pub fn index(uid: &str) -> (r: Vec<u8>)
    ensures
        r@ == blake3_digest(encode_utf8(uid@)),
        r@.len() == INDEX_LEN,
{
    blake3_hash(uid.as_bytes())
}

/// What a record produced for `uid` and `key` holds: the index is the digest
/// of the identifier, the salt has the fixed length, and the ciphertext is
/// the secret masked by the keystream of this very record.
pub open spec fn encoded_record(uid: Seq<char>, key: Seq<char>, s: Storage) -> bool {
    let uidb = encode_utf8(uid);
    let ks = record_keystream(blake3_digest(uidb), uidb, s.salt@);
    &&& s.index@ == blake3_digest(uidb)
    &&& s.index@.len() == INDEX_LEN
    &&& uidb.len() <= s.salt@.len()
    &&& s.salt@.len() == SECRET_LEN
    &&& encode_utf8(key).len() == SECRET_LEN
    &&& ks.len() >= SECRET_LEN
    &&& s.text@ == mask_bytes(ks, encode_utf8(key))
}

/// Exactly what `encode_with_salt` returns, case by case.
pub open spec fn encode_with_salt_post(
    uid: Seq<char>,
    key: Seq<char>,
    salt: Seq<u8>,
    r: Result<Storage, Error>,
) -> bool {
    let uidb = encode_utf8(uid);
    let keyb = encode_utf8(key);
    let ks = record_keystream(blake3_digest(uidb), uidb, salt);
    if keyb.len() != SECRET_LEN {
        r == Err::<Storage, Error>(Error::InvalidSecretLength)
    } else if uidb.len() > salt.len() {
        r == Err::<Storage, Error>(Error::KeyDerivation)
    } else if !derivable(blake3_digest(uidb), mixed_salt(uidb, salt)) {
        r == Err::<Storage, Error>(Error::KeyDerivation)
    } else if ks.len() < SECRET_LEN {
        r == Err::<Storage, Error>(Error::KeyDerivation)
    } else {
        r matches Ok(s) && s.index@ == blake3_digest(uidb) && s.index@.len() == INDEX_LEN
            && s.salt@ == salt && s.text@ == mask_bytes(ks, keyb)
    }
}

/// Encode `key` for `uid` with a caller-supplied salt.  This is the
/// deterministic core of the codec: every case of the result is pinned by
/// the contract.
pub fn encode_with_salt(uid: &str, key: &str, salt: Vec<u8>) -> (r: Result<Storage, Error>)
    ensures
        encode_with_salt_post(uid@, key@, salt@, r),
{
    let key_bytes = key.as_bytes_vec();
    if key_bytes.len() != SECRET_LEN {
        return Err(Error::InvalidSecretLength);
    }
    let uid_bytes = uid.as_bytes_vec();
    if uid_bytes.len() > salt.len() {
        return Err(Error::KeyDerivation);
    }
    let index = blake3_hash(uid.as_bytes());
    let mixed = mix_salt(&uid_bytes, &salt);
    if mixed.len() < 8 || mixed.len() > 0xFFFF_FFFF || index.len() > 0xFFFF_FFFF {
        return Err(Error::KeyDerivation);
    }
    let encoded = match argon2_hash_encoded(index.as_slice(), mixed.as_slice()) {
        Some(s) => s,
        None => {
            return Err(Error::KeyDerivation);
        },
    };
    let keystream = encoded.as_str().as_bytes_vec();
    if keystream.len() < SECRET_LEN {
        return Err(Error::KeyDerivation);
    }
    let text = xor_mask(&keystream, &key_bytes);
    Ok(Storage { index, text, salt })
}

/// Exactly what `encode` returns: a wrong secret length is refused before
/// anything else, an identifier longer than the salt capacity is refused
/// next, and a returned record is an encoding of `uid` and `key`.
pub open spec fn encode_post(uid: Seq<char>, key: Seq<char>, r: Result<Storage, Error>) -> bool {
    let uidb = encode_utf8(uid);
    let keyb = encode_utf8(key);
    &&& keyb.len() != SECRET_LEN ==> r == Err::<Storage, Error>(Error::InvalidSecretLength)
    &&& (keyb.len() == SECRET_LEN && uidb.len() > SECRET_LEN ==> r == Err::<Storage, Error>(
        Error::KeyDerivation,
    ))
    &&& (r matches Ok(s) ==> encoded_record(uid, key, s))
    &&& (r matches Err(e) ==> e == Error::InvalidSecretLength || e == Error::KeyDerivation
        || e == Error::RandomnessUnavailable)
    &&& (r == Err::<Storage, Error>(Error::InvalidSecretLength) ==> keyb.len() != SECRET_LEN)
}

/// Encode `key` for `uid` with a fresh random salt: validate the secret
/// length, draw the salt, derive index and keystream, and mask.
pub fn encode(uid: &str, key: &str) -> (r: Result<Storage, Error>)
    ensures
        encode_post(uid@, key@, r),
{
    if key.as_bytes_vec().len() != SECRET_LEN {
        return Err(Error::InvalidSecretLength);
    }
    if uid.as_bytes_vec().len() > SECRET_LEN {
        return Err(Error::KeyDerivation);
    }
    let salt_text = match crate::salt::salt(SECRET_LEN) {
        Ok(s) => s,
        Err(_) => {
            return Err(Error::RandomnessUnavailable);
        },
    };
    proof {
        is_ascii_chars_encode_utf8(salt_text@);
    }
    let salt_bytes = salt_text.as_str().as_bytes_vec();
    encode_with_salt(uid, key, salt_bytes)
}

/// Exactly what `decode` returns, case by case: an identifier that does not
/// fit the salt or lengths the slow hash refuses give `KeyDerivation`; a
/// too-short keystream gives `KeyDerivation`; unmasked bytes that are not
/// valid UTF-8 give `MalformedSecret`; otherwise the unmasked text.
pub open spec fn decode_post(s: Storage, uid: Seq<char>, r: Result<String, Error>) -> bool {
    let uidb = encode_utf8(uid);
    let ks = record_keystream(s.index@, uidb, s.salt@);
    if uidb.len() > s.salt@.len() {
        r == Err::<String, Error>(Error::KeyDerivation)
    } else if !derivable(s.index@, mixed_salt(uidb, s.salt@)) {
        r == Err::<String, Error>(Error::KeyDerivation)
    } else if ks.len() < s.text@.len() {
        r == Err::<String, Error>(Error::KeyDerivation)
    } else if valid_utf8(mask_bytes(ks, s.text@)) {
        r matches Ok(k) && encode_utf8(k@) == mask_bytes(ks, s.text@)
    } else {
        r == Err::<String, Error>(Error::MalformedSecret)
    }
}

/// Decode a stored record with the identifier that owns it: recompute the
/// keystream from the record's index and salt, unmask, and read the bytes
/// back as text.
pub fn decode(s: &Storage, uid: &str) -> (r: Result<String, Error>)
    ensures
        decode_post(*s, uid@, r),
{
    let uid_bytes = uid.as_bytes_vec();
    if uid_bytes.len() > s.salt.len() {
        return Err(Error::KeyDerivation);
    }
    let mixed = mix_salt(&uid_bytes, &s.salt);
    if mixed.len() < 8 || mixed.len() > 0xFFFF_FFFF || s.index.len() > 0xFFFF_FFFF {
        return Err(Error::KeyDerivation);
    }
    let encoded = match argon2_hash_encoded(s.index.as_slice(), mixed.as_slice()) {
        Some(t) => t,
        None => {
            return Err(Error::KeyDerivation);
        },
    };
    let keystream = encoded.as_str().as_bytes_vec();
    if keystream.len() < s.text.len() {
        return Err(Error::KeyDerivation);
    }
    let plain = xor_mask(&keystream, &s.text);
    match bytes_to_string(plain) {
        Some(k) => Ok(k),
        None => Err(Error::MalformedSecret),
    }
}

/// Validate both strings against the safe alphabet, then encode: the
/// decision logic of storing a key.
pub fn encode_checked(uid: &str, api_key: &str) -> (r: Result<Storage, Error>)
    ensures
        !all_safe_chars(uid@) ==> r == Err::<Storage, Error>(Error::InvalidCharacter),
        all_safe_chars(uid@) && !all_safe_chars(api_key@) ==> r == Err::<Storage, Error>(
            Error::InvalidCharacter,
        ),
        all_safe_chars(uid@) && all_safe_chars(api_key@) ==> encode_post(uid@, api_key@, r),
{
    if !all_valid_uid(uid) {
        return Err(Error::InvalidCharacter);
    }
    if !all_valid_key(api_key) {
        return Err(Error::InvalidCharacter);
    }
    encode(uid, api_key)
}

/// Validate the identifier against the safe alphabet, then derive its lookup
/// index: the decision logic of looking a key up.
pub fn index_checked(uid: &str) -> (r: Result<Vec<u8>, Error>)
    ensures
        !all_safe_chars(uid@) ==> r == Err::<Vec<u8>, Error>(Error::InvalidCharacter),
        all_safe_chars(uid@) ==> (r matches Ok(v) && v@ == blake3_digest(encode_utf8(uid@))
            && v@.len() == INDEX_LEN),
{
    if !all_valid_uid(uid) {
        return Err(Error::InvalidCharacter);
    }
    Ok(index(uid))
}

/// Masking is an involution: XOR-ing twice against one keystream gives the
/// data back.
proof fn lemma_mask_involution(keystream: Seq<u8>, data: Seq<u8>)
    requires
        data.len() <= keystream.len(),
    ensures
        mask_bytes(keystream, mask_bytes(keystream, data)) == data,
{
    let m = mask_bytes(keystream, mask_bytes(keystream, data));
    assert forall|i: int| 0 <= i < data.len() implies m[i] == data[i] by {
        let a = keystream[i];
        let b = data[i];
        assert(a ^ (a ^ b) == b) by (bit_vector);
    }
    assert(m =~= data);
}

/// Law: decoding a record with the identifier and secret that produced it
/// recovers exactly the secret.  Whenever a record satisfies `encode`'s
/// postcondition for `uid` and `key`, `decode`'s postcondition forces the
/// result to be `Ok` with view `key`.
pub proof fn lemma_round_trip(
    uid: Seq<char>,
    key: Seq<char>,
    s: Storage,
    r: Result<String, Error>,
)
    requires
        encoded_record(uid, key, s),
        decode_post(s, uid, r),
    ensures
        r matches Ok(k) && k@ == key,
{
    let uidb = encode_utf8(uid);
    let keyb = encode_utf8(key);
    let ks = record_keystream(s.index@, uidb, s.salt@);
    assert(mixed_salt(uidb, s.salt@).len() == s.salt@.len());
    assert(derivable(s.index@, mixed_salt(uidb, s.salt@)));
    assert(s.text@.len() == keyb.len());
    lemma_mask_involution(ks, keyb);
    assert(mask_bytes(ks, s.text@) == keyb);
    vstd::utf8::encode_utf8_valid_utf8(key);
    assert(r matches Ok(k) && encode_utf8(k@) == keyb);
    let k = r->Ok_0;
    vstd::utf8::encode_utf8_decode_utf8(k@);
    vstd::utf8::encode_utf8_decode_utf8(key);
}

/// Law: the index is deterministic; one identifier always derives one index.
pub proof fn lemma_index_deterministic(uid1: Seq<char>, uid2: Seq<char>)
    requires
        uid1 == uid2,
    ensures
        blake3_digest(encode_utf8(uid1)) == blake3_digest(encode_utf8(uid2)),
{
}

/// Law: two records encoded from the same identifier and secret, whatever
/// their salts, carry the same index, and each decodes back to the secret.
pub proof fn lemma_reencoded_records(
    uid: Seq<char>,
    key: Seq<char>,
    s1: Storage,
    s2: Storage,
    r1: Result<String, Error>,
    r2: Result<String, Error>,
)
    requires
        encoded_record(uid, key, s1),
        encoded_record(uid, key, s2),
        decode_post(s1, uid, r1),
        decode_post(s2, uid, r2),
    ensures
        s1.index@ == s2.index@,
        r1 matches Ok(k1) && k1@ == key,
        r2 matches Ok(k2) && k2@ == key,
{
    lemma_round_trip(uid, key, s1, r1);
    lemma_round_trip(uid, key, s2, r2);
}

} // verus!

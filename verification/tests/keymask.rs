use keymask::key_store::{
    decode, encode, encode_checked, encode_with_salt, index, index_checked, Storage, INDEX_LEN,
    SECRET_LEN,
};
use keymask::salt::salt;
use keymask::util::{all_valid_key, all_valid_uid, is_valid_key, is_valid_uid};
use keymask::{Error, InsertionFailError, InvalidCharacterError, NonceError};

fn secret() -> String {
    "ABCDEFGH".repeat(9)
}

#[test]
fn it_works() {
    assert_eq!(2 + 2, 4);
}

#[test]
fn round_trip_recovers_secret() {
    let k = secret();
    assert_eq!(k.len(), SECRET_LEN);
    let record = encode("user-123", &k).unwrap();
    assert_eq!(record.index.len(), INDEX_LEN);
    assert_eq!(record.text.len(), SECRET_LEN);
    assert_eq!(record.salt.len(), SECRET_LEN);
    assert_eq!(record.index, index("user-123"));
    assert_ne!(record.text, k.as_bytes().to_vec());
    let decoded = decode(&record, "user-123").unwrap();
    assert_eq!(decoded, k);
}

#[test]
fn index_is_deterministic_digest() {
    let a = index("user-123");
    let b = index("user-123");
    assert_eq!(a, b);
    assert_eq!(a.len(), INDEX_LEN);
    assert_ne!(a, index("user-124"));
    assert_ne!(a, "user-123".as_bytes().to_vec());
}

#[test]
fn fresh_salts_make_distinct_records_that_both_decode() {
    let k = secret();
    let r1 = encode("user-123", &k).unwrap();
    let r2 = encode("user-123", &k).unwrap();
    assert_eq!(r1.index, r2.index);
    assert_ne!(r1.salt, r2.salt);
    assert_ne!(r1.text, r2.text);
    assert_eq!(decode(&r1, "user-123").unwrap(), k);
    assert_eq!(decode(&r2, "user-123").unwrap(), k);
}

#[test]
fn wrong_identifier_never_yields_the_secret() {
    let k = secret();
    let record = encode("user-123", &k).unwrap();
    match decode(&record, "user-124") {
        Ok(other) => assert_ne!(other, k),
        Err(e) => assert_eq!(e, Error::MalformedSecret),
    }
}

fn expect_encode_err(r: Result<Storage, Error>) -> Error {
    match r {
        Err(e) => e,
        Ok(_) => panic!("expected the encoder to refuse this input"),
    }
}

#[test]
fn wrong_secret_length_is_refused() {
    assert_eq!(expect_encode_err(encode("user-123", "short")), Error::InvalidSecretLength);
    let long = "A".repeat(SECRET_LEN + 1);
    assert_eq!(expect_encode_err(encode("user-123", &long)), Error::InvalidSecretLength);
    let empty = String::new();
    assert_eq!(expect_encode_err(encode("user-123", &empty)), Error::InvalidSecretLength);
}

#[test]
fn identifier_longer_than_salt_is_refused() {
    let k = secret();
    let uid = "u".repeat(SECRET_LEN + 1);
    assert_eq!(expect_encode_err(encode(&uid, &k)), Error::KeyDerivation);
}

#[test]
fn corrupted_ciphertext_is_malformed() {
    let k = secret();
    let mut record = encode("user-123", &k).unwrap();
    record.text[40] |= 0x80;
    assert_eq!(decode(&record, "user-123"), Err(Error::MalformedSecret));
}

#[test]
fn caller_salt_makes_the_codec_deterministic() {
    let k = secret();
    let fixed: Vec<u8> = (0u8..SECRET_LEN as u8).collect();
    let r1 = encode_with_salt("user-123", &k, fixed.clone()).unwrap();
    let r2 = encode_with_salt("user-123", &k, fixed.clone()).unwrap();
    assert_eq!(r1.index, r2.index);
    assert_eq!(r1.salt, r2.salt);
    assert_eq!(r1.text, r2.text);
    assert_eq!(r1.salt, fixed);
    assert_eq!(decode(&r1, "user-123").unwrap(), k);
}

#[test]
fn too_short_caller_salt_is_refused() {
    let k = secret();
    let tiny: Vec<u8> = vec![1, 2, 3, 4, 5, 6, 7];
    assert_eq!(expect_encode_err(encode_with_salt("", &k, tiny)), Error::KeyDerivation);
}

#[test]
fn salt_has_the_asked_length_and_is_fresh() {
    let s1 = salt(SECRET_LEN).unwrap();
    let s2 = salt(SECRET_LEN).unwrap();
    assert_eq!(s1.len(), SECRET_LEN);
    assert_eq!(s2.len(), SECRET_LEN);
    assert_ne!(s1, s2);
    assert!(s1.is_ascii());
}

#[test]
fn bad_salt_sizes_are_refused() {
    assert!(salt(10).is_err());
    assert!(salt(18).is_err());
}

#[test]
fn unsafe_characters_are_refused_before_encoding() {
    let k = secret();
    match encode_checked("user 123", &k) {
        Err(e) => assert_eq!(e, Error::InvalidCharacter),
        Ok(_) => panic!("a space must be refused"),
    }
    let bad_key = "!".repeat(SECRET_LEN);
    match encode_checked("user-123", &bad_key) {
        Err(e) => assert_eq!(e, Error::InvalidCharacter),
        Ok(_) => panic!("a bang must be refused"),
    }
    let good = encode_checked("user-123", &k).unwrap();
    assert_eq!(decode(&good, "user-123").unwrap(), k);
}

#[test]
fn lookup_validates_the_identifier() {
    assert_eq!(index_checked("user_123"), Err(Error::InvalidCharacter));
    assert_eq!(index_checked("user-123").unwrap(), index("user-123"));
}

#[test]
fn character_validators_match_the_safe_alphabet() {
    for c in ['a', 'z', 'A', 'Z', '0', '9', '-'] {
        assert!(is_valid_uid(c));
        assert!(is_valid_key(c));
    }
    for c in [' ', '_', '!', '/', ':', '@', '[', '`', '{', '\u{e9}'] {
        assert!(!is_valid_uid(c));
        assert!(!is_valid_key(c));
    }
    assert!(all_valid_uid("user-123"));
    assert!(all_valid_uid(""));
    assert!(!all_valid_uid("user 123"));
    assert!(all_valid_key("ABCDEFGH"));
    assert!(!all_valid_key("AB CD"));
}

#[test]
fn error_values_compare_and_report() {
    assert_eq!(Error::RandomnessUnavailable, Error::RandomnessUnavailable);
    assert_ne!(Error::KeyDerivation, Error::MalformedSecret);
    assert_eq!(InsertionFailError, InsertionFailError);
    let nonce_err = NonceError::from("no entropy");
    assert_eq!(nonce_err.message(), "no entropy");
    let owned = NonceError::from_message(String::from("late clock"));
    assert_eq!(owned.message(), "late clock");
    let char_err = InvalidCharacterError::from("user 123");
    assert_eq!(char_err.message(), "user 123");
}

#[test]
fn empty_identifier_still_round_trips() {
    let k = secret();
    let record = encode("", &k).unwrap();
    assert_eq!(record.index, index(""));
    assert_eq!(decode(&record, "").unwrap(), k);
}

#[test]
fn record_columns_round_trip_through_plain_bytes() {
    let k = secret();
    let r = encode("user-123", &k).unwrap();
    let copied = Storage { index: r.index.clone(), text: r.text.clone(), salt: r.salt.clone() };
    assert_eq!(decode(&copied, "user-123").unwrap(), k);
}

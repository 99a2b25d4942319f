use social_api::security::{
    decrypt, encrypt, generate_random_id, hash, random_id_from_uuids, random_str_from_draws,
    CryptError, RANDOM_CHARACTERS,
};

#[test]
fn encrypt_matches_documented_example() {
    assert_eq!(
        encrypt("magickey", "http://magiclen.org"),
        "DS/2U8royDnJDiNY2ps3f6ZoTbpZo8ZtUGYLGEjwLDQ="
    );
}

#[test]
fn decrypt_inverts_encrypt() {
    for text in ["", "secret password", "mot de passe é"] {
        let enc = encrypt("k3y", text);
        assert_ne!(enc, text);
        assert_eq!(decrypt("k3y", &enc), Ok(text.to_string()));
    }
}

#[test]
fn decrypt_refuses_non_base64() {
    assert_eq!(decrypt("k3y", "not base64!"), Err(CryptError::Base64));
}

#[test]
fn decrypt_under_wrong_key_fails() {
    let enc = encrypt("right", "some longer secret text");
    assert!(decrypt("wrong", &enc).is_err());
}

#[test]
fn hash_is_lowercase_sha256_hex() {
    assert_eq!(
        hash("abc".to_string()),
        "ba7816bf8f01cfea414140de5dae2223b00361a396177a9cb410ff61f20015ad"
    );
    let h = hash(String::new());
    assert_eq!(h.len(), 64);
    assert_eq!(h, "e3b0c44298fc1c149afbf4c8996fb92427ae41e4649b934ca495991b7852b855");
}

#[test]
fn random_id_has_requested_length_and_uuid_digits() {
    for length in [0usize, 1, 30, 32, 33, 128] {
        let id = generate_random_id(length);
        assert_eq!(id.len(), length);
        for (i, c) in id.chars().enumerate() {
            assert!(c.is_ascii_hexdigit() && !c.is_ascii_uppercase());
            if i % 32 == 12 {
                assert_eq!(c, '4');
            }
            if i % 32 == 16 {
                assert!("89ab".contains(c));
            }
        }
    }
}

#[test]
fn random_ids_differ() {
    assert_ne!(generate_random_id(30), generate_random_id(30));
}

#[test]
fn draws_pick_pieces_of_the_empty_split() {
    assert_eq!(RANDOM_CHARACTERS.len(), 71);
    assert_eq!(random_str_from_draws(&vec![1, 2, 3]), "ABC");
    assert_eq!(random_str_from_draws(&vec![0, 27, 71]), "a_");
    assert_eq!(random_str_from_draws(&vec![72, 73, 500]), ",,");
    assert_eq!(random_str_from_draws(&Vec::new()), "");
}

#[test]
fn encrypt_gives_padded_base64_of_whole_blocks() {
    for text in ["", "x", "exactly sixteen!", "a somewhat longer text to encrypt"] {
        let enc = encrypt("key", text);
        assert!(!enc.is_empty());
        assert_eq!(enc.len() % 4, 0);
        assert!(enc.chars().all(|c| c.is_ascii_alphanumeric() || c == '+' || c == '/' || c == '='));
        let pads = enc.chars().rev().take_while(|c| *c == '=').count();
        assert_eq!((enc.len() / 4 * 3 - pads) % 16, 0);
        assert_eq!(encrypt("key", text), enc);
    }
}

#[test]
fn decrypt_refuses_text_that_is_not_whole_blocks() {
    assert!(decrypt("k", "").is_err());
    assert!(decrypt("k", "QUJD").is_err());
    assert!(decrypt("k", "QUJDREVGR0g=").is_err());
    assert!(decrypt("k", "QUJ").is_err());
    assert!(decrypt("k", "A=AAAAAAAAAAAAAAAAAAAA==").is_err());
    assert!(decrypt("k", "AAAAAAAAAAAAAAAAAAAAAB==").is_err());
}

#[test]
fn id_from_uuids_concatenates_digits_and_cuts() {
    let uuids = vec![
        "0123abcd-ef01-4567-89ab-cdef01234567".to_string(),
        "fedcba98-7654-4321-a0b1-c2d3e4f50617".to_string(),
    ];
    assert_eq!(
        random_id_from_uuids(&uuids, 40),
        "0123abcdef01456789abcdef01234567fedcba98"
    );
    assert_eq!(random_id_from_uuids(&uuids, 0), "");
    assert_eq!(random_id_from_uuids(&uuids[..1].to_vec(), 30), "0123abcdef01456789abcdef012345");
}

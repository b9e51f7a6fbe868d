use farcaster::cipher::{authenticated, check_key_material, KEY_LEN, NONCE_LEN, TAG_LEN};
use farcaster::{CipherError, FCPayload};

fn hex(text: &str) -> Vec<u8> {
    let digits: Vec<u8> = text.bytes().map(|c| (c as char).to_digit(16).unwrap() as u8).collect();
    digits.chunks(2).map(|pair| pair[0] * 16 + pair[1]).collect()
}

fn key() -> Vec<u8> {
    hex("460fc864972261c2560e1eb88761ff1c992b982497bd2ac36c04071cbb8e5d99")
}

fn nonce() -> Vec<u8> {
    hex("8a4a16b9e210eb68bcb6f58d")
}

#[test]
fn encrypt_gives_the_known_ciphertext_and_tag() {
    let mut e = FCPayload::new(1, hex("99e4e926ffe927f691893fb79a96b067"), vec![]);
    assert_eq!(e.encrypt_payload(&key(), &nonce()), Ok(()));
    assert_eq!(
        e.decode_raw_payload(),
        &hex("133fc15751621b5f325c7ff71ce08324ec4e87e0cf74a13618d0b68636ba9fa7")[..]
    );
}

#[test]
fn encrypt_of_an_empty_payload_is_the_tag_alone() {
    let k = hex("b52c505a37d78eda5dd34f20c22540ea1b58963cf8e5bf8ffa85f9f2492505b4");
    let n = hex("516c33929df5a3284ff463d7");
    let mut e = FCPayload::new(1, vec![], vec![]);
    assert_eq!(e.encrypt_payload(&k, &n), Ok(()));
    assert_eq!(e.decode_raw_payload(), &hex("bdc1ac884d332457a1d2664f168c76f0")[..]);
    assert_eq!(e.decode_encrypted_payload(&k, &n), Ok(vec![]));
}

#[test]
fn decrypt_gives_the_known_plaintext() {
    let sealed = hex("133fc15751621b5f325c7ff71ce08324ec4e87e0cf74a13618d0b68636ba9fa7");
    let e = FCPayload::new(1, sealed, vec![]);
    assert_eq!(
        e.decode_encrypted_payload(&key(), &nonce()),
        Ok(hex("99e4e926ffe927f691893fb79a96b067"))
    );
}

#[test]
fn decrypt_inverts_encrypt() {
    let mut len: usize = 0;
    while len < 70 {
        let plain: Vec<u8> = (0..len).map(|i| (i * 7 + len) as u8).collect();
        let mut e = FCPayload::new(3, plain.clone(), vec![1, 2, 3]);
        assert_eq!(e.encrypt_payload(&[0x42; 32], &[0x24; 12]), Ok(()));
        assert_eq!(e.decode_raw_payload().len(), len + TAG_LEN);
        assert_eq!(e.decode_encrypted_payload(&[0x42; 32], &[0x24; 12]), Ok(plain));
        len += 1;
    }
}

#[test]
fn encrypt_changes_the_payload() {
    let plain = b"attack at dawn".to_vec();
    let mut e = FCPayload::new(3, plain.clone(), vec![]);
    assert_eq!(e.encrypt_payload(&[7; 32], &[9; 12]), Ok(()));
    assert_ne!(e.decode_raw_payload(), &plain[..]);
    assert_ne!(&e.decode_raw_payload()[..plain.len()], &plain[..]);
    assert_eq!(e.decode_raw_payload().len(), plain.len() + 16);
}

#[test]
fn encrypt_is_a_function_of_key_nonce_and_payload() {
    let mut a = FCPayload::new(3, vec![1, 2, 3], vec![]);
    let mut b = FCPayload::new(9, vec![1, 2, 3], vec![7]);
    let mut c = FCPayload::new(3, vec![1, 2, 3], vec![]);
    let mut d = FCPayload::new(3, vec![1, 2, 3], vec![]);
    a.encrypt_payload(&[7; 32], &[9; 12]).unwrap();
    b.encrypt_payload(&[7; 32], &[9; 12]).unwrap();
    c.encrypt_payload(&[8; 32], &[9; 12]).unwrap();
    d.encrypt_payload(&[7; 32], &[10; 12]).unwrap();
    assert_eq!(a.decode_raw_payload(), b.decode_raw_payload());
    assert_ne!(a.decode_raw_payload(), c.decode_raw_payload());
    assert_ne!(a.decode_raw_payload(), d.decode_raw_payload());
}

#[test]
fn encrypt_leaves_descriptor_and_metadata() {
    let mut e = FCPayload::new(77, vec![1, 2, 3], vec![4, 5, 6]);
    e.encrypt_payload(&key(), &nonce()).unwrap();
    assert_eq!(e.descriptor(), 77);
    assert_eq!(e.decode_metadata(), &[4u8, 5, 6][..]);
}

#[test]
fn decrypt_leaves_the_envelope() {
    let mut e = FCPayload::new(77, vec![1, 2, 3], vec![4, 5, 6]);
    e.encrypt_payload(&key(), &nonce()).unwrap();
    let sealed = e.clone();
    assert_eq!(e.decode_encrypted_payload(&key(), &nonce()), Ok(vec![1, 2, 3]));
    assert_eq!(e, sealed);
    let refused = e.decode_encrypted_payload(&[0; 32], &nonce());
    assert_eq!(refused, Err(CipherError::AuthenticationFailed));
    assert_eq!(e, sealed);
}

#[test]
fn any_flipped_bit_fails_authentication() {
    let mut e = FCPayload::new(1, b"login:alice".to_vec(), vec![]);
    e.encrypt_payload(&key(), &nonce()).unwrap();
    let sealed = e.decode_raw_payload().to_vec();
    let mut bit: usize = 0;
    while bit < sealed.len() * 8 {
        let mut altered = sealed.clone();
        altered[bit / 8] ^= 1 << (bit % 8);
        let t = FCPayload::new(1, altered, vec![]);
        assert_eq!(
            t.decode_encrypted_payload(&key(), &nonce()),
            Err(CipherError::AuthenticationFailed)
        );
        bit += 1;
    }
}

#[test]
fn a_cut_or_lengthened_payload_fails_authentication() {
    let mut e = FCPayload::new(1, b"login:alice".to_vec(), vec![]);
    e.encrypt_payload(&key(), &nonce()).unwrap();
    let sealed = e.decode_raw_payload().to_vec();
    let mut n: usize = 0;
    while n < sealed.len() {
        let t = FCPayload::new(1, sealed[..n].to_vec(), vec![]);
        assert_eq!(
            t.decode_encrypted_payload(&key(), &nonce()),
            Err(CipherError::AuthenticationFailed)
        );
        n += 1;
    }
    let mut longer = sealed.clone();
    longer.push(0);
    let t = FCPayload::new(1, longer, vec![]);
    let refused = t.decode_encrypted_payload(&key(), &nonce());
    assert_eq!(refused, Err(CipherError::AuthenticationFailed));
}

#[test]
fn a_payload_shorter_than_the_tag_fails_authentication() {
    let mut n: usize = 0;
    while n < 16 {
        let t = FCPayload::new(1, vec![0xA5; n], vec![]);
        assert_eq!(
            t.decode_encrypted_payload(&key(), &nonce()),
            Err(CipherError::AuthenticationFailed)
        );
        n += 1;
    }
}

#[test]
fn plaintext_never_passes_for_ciphertext() {
    let t = FCPayload::new(1, b"this was never encrypted, not at all".to_vec(), vec![]);
    let refused = t.decode_encrypted_payload(&key(), &nonce());
    assert_eq!(refused, Err(CipherError::AuthenticationFailed));
}

#[test]
fn the_wrong_key_fails_authentication() {
    let mut e = FCPayload::new(1, vec![1, 2, 3], vec![]);
    e.encrypt_payload(&key(), &nonce()).unwrap();
    let mut other = key();
    other[31] ^= 1;
    let refused = e.decode_encrypted_payload(&other, &nonce());
    assert_eq!(refused, Err(CipherError::AuthenticationFailed));
}

#[test]
fn the_wrong_nonce_fails_authentication() {
    let mut e = FCPayload::new(1, vec![1, 2, 3], vec![]);
    e.encrypt_payload(&key(), &nonce()).unwrap();
    let mut other = nonce();
    other[0] ^= 0x80;
    let refused = e.decode_encrypted_payload(&key(), &other);
    assert_eq!(refused, Err(CipherError::AuthenticationFailed));
}

#[test]
fn encrypt_refuses_a_key_of_the_wrong_length() {
    for len in [0usize, 16, 31, 33, 64, 256] {
        let mut e = FCPayload::new(1, vec![1, 2, 3], vec![4]);
        let refused = e.encrypt_payload(&vec![1; len], &nonce());
        assert_eq!(refused, Err(CipherError::InvalidKeyMaterial));
        assert_eq!(e, FCPayload::new(1, vec![1, 2, 3], vec![4]));
    }
}

#[test]
fn encrypt_refuses_a_nonce_of_the_wrong_length() {
    for len in [0usize, 8, 11, 13, 16, 96] {
        let mut e = FCPayload::new(1, vec![1, 2, 3], vec![4]);
        let refused = e.encrypt_payload(&key(), &vec![1; len]);
        assert_eq!(refused, Err(CipherError::InvalidKeyMaterial));
        assert_eq!(e, FCPayload::new(1, vec![1, 2, 3], vec![4]));
    }
}

#[test]
fn decrypt_refuses_key_material_of_the_wrong_length() {
    let mut e = FCPayload::new(1, vec![1, 2, 3], vec![]);
    e.encrypt_payload(&key(), &nonce()).unwrap();
    let invalid = Err(CipherError::InvalidKeyMaterial);
    assert_eq!(e.decode_encrypted_payload(&key()[..31], &nonce()), invalid);
    assert_eq!(e.decode_encrypted_payload(&key(), &nonce()[..11]), invalid);
    assert_eq!(e.decode_encrypted_payload(&[], &[]), invalid);
    assert_eq!(e.decode_encrypted_payload(&[0; 256], &[0; 96]), invalid);
}

#[test]
fn bad_key_material_is_reported_before_a_bad_payload() {
    let t = FCPayload::new(1, vec![1, 2, 3], vec![]);
    let refused = t.decode_encrypted_payload(&[0; 5], &nonce());
    assert_eq!(refused, Err(CipherError::InvalidKeyMaterial));
}

#[test]
fn check_key_material_takes_32_and_12() {
    assert_eq!(KEY_LEN, 32);
    assert_eq!(NONCE_LEN, 12);
    assert_eq!(check_key_material(&[0; 32], &[0; 12]), Ok(()));
    assert_eq!(check_key_material(&[0; 31], &[0; 12]), Err(CipherError::InvalidKeyMaterial));
    assert_eq!(check_key_material(&[0; 32], &[0; 13]), Err(CipherError::InvalidKeyMaterial));
    assert_eq!(check_key_material(&[0; 12], &[0; 32]), Err(CipherError::InvalidKeyMaterial));
    assert_eq!(check_key_material(&[], &[]), Err(CipherError::InvalidKeyMaterial));
}

#[test]
fn authenticated_keeps_a_plaintext_and_names_a_refusal() {
    assert_eq!(authenticated(Ok(vec![1, 2, 3])), Ok(vec![1, 2, 3]));
    assert_eq!(authenticated(Ok(vec![])), Ok(vec![]));
    assert_eq!(authenticated(Err(aes_gcm::Error)), Err(CipherError::AuthenticationFailed));
}

#[test]
fn a_large_payload_round_trips() {
    let plain: Vec<u8> = (0..100_000usize).map(|i| (i % 253) as u8).collect();
    let mut e = FCPayload::new(1, plain.clone(), vec![]);
    e.encrypt_payload(&key(), &nonce()).unwrap();
    assert_eq!(e.decode_raw_payload().len(), 100_016);
    assert_eq!(e.decode_encrypted_payload(&key(), &nonce()), Ok(plain));
}

#[test]
fn sealing_again_what_was_opened_gives_the_same_bytes() {
    let sealed = hex("133fc15751621b5f325c7ff71ce08324ec4e87e0cf74a13618d0b68636ba9fa7");
    let e = FCPayload::new(1, sealed.clone(), vec![]);
    let opened = e.decode_encrypted_payload(&key(), &nonce()).unwrap();
    let mut again = FCPayload::new(1, opened, vec![]);
    again.encrypt_payload(&key(), &nonce()).unwrap();
    assert_eq!(again.decode_raw_payload(), &sealed[..]);
}

#[test]
fn encrypting_twice_takes_decrypting_twice() {
    let mut e = FCPayload::new(1, vec![1, 2, 3], vec![]);
    e.encrypt_payload(&key(), &nonce()).unwrap();
    e.encrypt_payload(&[5; 32], &[6; 12]).unwrap();
    assert_eq!(e.decode_raw_payload().len(), 3 + 2 * TAG_LEN);
    let outer = e.decode_encrypted_payload(&[5; 32], &[6; 12]).unwrap();
    e.insert_raw_payload(outer);
    assert_eq!(e.decode_encrypted_payload(&key(), &nonce()), Ok(vec![1, 2, 3]));
}

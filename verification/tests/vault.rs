use hostfs::errors::VaultError;
use hostfs::vault::Encryptor;

const KEY: &str = "default-32-byte-encryption-key!";

#[test]
fn round_trip_simple() {
    let enc = Encryptor::new(KEY);
    let token = enc.encrypt("s3cret-password").unwrap();
    assert_eq!(enc.decrypt(&token).unwrap(), "s3cret-password");
}

#[test]
fn round_trip_empty() {
    let enc = Encryptor::new(KEY);
    let token = enc.encrypt("").unwrap();
    assert_eq!(enc.decrypt(&token).unwrap(), "");
}

#[test]
fn round_trip_unicode() {
    let enc = Encryptor::new(KEY);
    let plain = "pässwörd ✓ with spaces\tand\nlines";
    let token = enc.encrypt(plain).unwrap();
    assert_eq!(enc.decrypt(&token).unwrap(), plain);
}

#[test]
fn fresh_nonce_each_encrypt() {
    let enc = Encryptor::new(KEY);
    let t1 = enc.encrypt("same input").unwrap();
    let t2 = enc.encrypt("same input").unwrap();
    assert_ne!(t1, t2);
    assert_eq!(enc.decrypt(&t1).unwrap(), "same input");
    assert_eq!(enc.decrypt(&t2).unwrap(), "same input");
}

#[test]
fn encrypt_with_nonce_is_deterministic() {
    let enc = Encryptor::new(KEY);
    let nonce: Vec<u8> = vec![7u8; 12];
    let t1 = enc.encrypt_with_nonce("abc", &nonce).unwrap();
    let t2 = enc.encrypt_with_nonce("abc", &nonce).unwrap();
    assert_eq!(t1, t2);
    assert_eq!(enc.decrypt(&t1).unwrap(), "abc");
}

#[test]
fn token_layout_nonce_ciphertext_tag() {
    let enc = Encryptor::new(KEY);
    let nonce: Vec<u8> = vec![5u8; 12];
    let token = enc.encrypt_with_nonce("abcde", &nonce).unwrap();
    let data = base64::Engine::decode(&base64::engine::general_purpose::STANDARD, &token).unwrap();
    assert_eq!(data.len(), 12 + 5 + 16);
    assert_eq!(&data[..12], &nonce[..]);
}

#[test]
fn encrypt_token_length() {
    let enc = Encryptor::new(KEY);
    let plain = "sixteen byte pwd";
    let token = enc.encrypt(plain).unwrap();
    let data = base64::Engine::decode(&base64::engine::general_purpose::STANDARD, &token).unwrap();
    assert_eq!(data.len(), 12 + plain.len() + 16);
}

#[test]
fn tamper_detection_every_position() {
    let enc = Encryptor::new(KEY);
    let token = enc.encrypt("do not alter me").unwrap();
    for i in 0..token.len() {
        let mut bytes = token.clone().into_bytes();
        bytes[i] = if bytes[i] == b'A' { b'B' } else { b'A' };
        let altered = String::from_utf8(bytes).unwrap();
        if altered == token {
            continue;
        }
        assert!(
            enc.decrypt(&altered).is_err(),
            "tampered token at byte {} was accepted",
            i
        );
    }
}

#[test]
fn decrypt_rejects_invalid_base64() {
    let enc = Encryptor::new(KEY);
    assert_eq!(enc.decrypt("!!!not-base64!!!"), Err(VaultError::Decrypt));
}

#[test]
fn decrypt_rejects_short_data() {
    let enc = Encryptor::new(KEY);
    // four bytes decode fine but cannot hold a 12-byte nonce
    let short = base64::Engine::encode(&base64::engine::general_purpose::STANDARD, [1u8, 2, 3, 4]);
    assert_eq!(enc.decrypt(&short), Err(VaultError::Decrypt));
}

#[test]
fn decrypt_rejects_wrong_key() {
    let enc_a = Encryptor::new("key-number-one");
    let enc_b = Encryptor::new("key-number-two");
    let token = enc_a.encrypt("secret").unwrap();
    assert_eq!(enc_b.decrypt(&token), Err(VaultError::Decrypt));
}

#[test]
fn decrypt_rejects_non_utf8_plaintext() {
    // seal bytes that are not UTF-8 under the same key derivation the vault
    // uses, and check the vault refuses them with the encoding error
    let mut key = vec![0u8; 32];
    let kb = KEY.as_bytes();
    key[..kb.len().min(32)].copy_from_slice(&kb[..kb.len().min(32)]);
    let unbound = ring::aead::UnboundKey::new(&ring::aead::AES_256_GCM, &key).unwrap();
    let sealing = ring::aead::LessSafeKey::new(unbound);
    let nonce_bytes = [9u8; 12];
    let nonce = ring::aead::Nonce::assume_unique_for_key(nonce_bytes);
    let mut buf = vec![0xffu8, 0xfe, 0x80];
    sealing
        .seal_in_place_append_tag(nonce, ring::aead::Aad::empty(), &mut buf)
        .unwrap();
    let mut data = nonce_bytes.to_vec();
    data.extend_from_slice(&buf);
    let token = base64::Engine::encode(&base64::engine::general_purpose::STANDARD, &data);
    let enc = Encryptor::new(KEY);
    assert_eq!(enc.decrypt(&token), Err(VaultError::Encoding));
}

#[test]
fn key_padding_matches_explicit_zeros() {
    // a short secret is zero-padded to 32 bytes, so the padded form of the
    // same secret derives the same key
    let enc_short = Encryptor::new("tiny");
    let padded = format!("tiny{}", "\0".repeat(28));
    let enc_padded = Encryptor::new(&padded);
    let token = enc_short.encrypt("value").unwrap();
    assert_eq!(enc_padded.decrypt(&token).unwrap(), "value");
}

#[test]
fn key_truncation_to_32_bytes() {
    // only the first 32 bytes of a long secret matter
    let long_a = "0123456789abcdef0123456789abcdefTAIL-ONE";
    let long_b = "0123456789abcdef0123456789abcdefTAIL-TWO";
    let enc_a = Encryptor::new(long_a);
    let enc_b = Encryptor::new(long_b);
    let token = enc_a.encrypt("value").unwrap();
    assert_eq!(enc_b.decrypt(&token).unwrap(), "value");
}

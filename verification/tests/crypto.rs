use elgamal_ot::ec_handler::EcHandler;
use elgamal_ot::errors::OtError;
use elgamal_ot::ot::Receiver;

#[test]
fn encrypt_decrypt_round_trip() {
    let h = EcHandler::new();
    let key: Vec<u8> = (0u8..16).collect();
    let payloads: Vec<Vec<u8>> = vec![
        vec![],
        b"a".to_vec(),
        b"0123456789abcdef".to_vec(),
        vec![7u8; 1000],
    ];
    for payload in payloads {
        let blob = h.enc_data(&key, &payload).unwrap();
        assert_eq!(blob.len(), 16 + 16 * (payload.len() / 16 + 1));
        let recovered = h.dec_data(&key, &blob).unwrap();
        assert_eq!(recovered, payload);
    }
}

#[test]
fn fresh_iv_per_encryption() {
    let h = EcHandler::new();
    let key = vec![42u8; 16];
    let payload = b"same plaintext".to_vec();
    let blob1 = h.enc_data(&key, &payload).unwrap();
    let blob2 = h.enc_data(&key, &payload).unwrap();
    assert_ne!(blob1, blob2);
    assert_eq!(h.dec_data(&key, &blob1).unwrap(), payload);
    assert_eq!(h.dec_data(&key, &blob2).unwrap(), payload);
}

#[test]
fn short_ciphertext_rejected() {
    let h = EcHandler::new();
    let key = vec![0u8; 16];
    match h.dec_data(&key, &[1u8, 2, 3]) {
        Err(OtError::DecryptionError) => {}
        _ => panic!("a blob shorter than one IV must be rejected"),
    }
    match h.dec_data(&key, &[]) {
        Err(OtError::DecryptionError) => {}
        _ => panic!("an empty blob must be rejected"),
    }
}

#[test]
fn derive_key_deterministic_and_sensitive() {
    let v = b"encoding of point V".to_vec();
    let w = b"encoding of point W".to_vec();
    let k1 = EcHandler::derive_key(&v, &w);
    let k2 = EcHandler::derive_key(&v, &w);
    assert_eq!(k1, k2);
    assert_eq!(k1.len(), 16);

    for pos in [0usize, 7, v.len() - 1] {
        let mut v2 = v.clone();
        v2[pos] ^= 1;
        assert_ne!(EcHandler::derive_key(&v2, &w), k1);
    }
    for pos in [0usize, 9, w.len() - 1] {
        let mut w2 = w.clone();
        w2[pos] ^= 1;
        assert_ne!(EcHandler::derive_key(&v, &w2), k1);
    }
}

#[test]
fn app_constants_fixed() {
    assert_eq!(EcHandler::APP_INFO(), b"EC ELGAMAL 1-N OT".to_vec());
    let salt = EcHandler::APP_SALT();
    assert_eq!(salt.len(), 16);
    assert_eq!(salt[0], 0x19);
    assert_eq!(salt[15], 0x19);
}

#[test]
fn point_encoding_round_trip() {
    let receiver = Receiver::new().unwrap();
    let h = &receiver.ec_handler;
    let p = receiver.get_pubkey();
    let bytes = h.pubkey_to_bytes(&p);
    assert_eq!(bytes.len(), 33);
    let q = h.bytes_to_pubkey(&bytes).unwrap();
    assert_eq!(h.pubkey_to_bytes(&q), bytes);
}

#[test]
fn invalid_point_encoding_rejected() {
    let h = EcHandler::new();
    let bad_form = vec![0x05u8; 33];
    match h.bytes_to_pubkey(&bad_form) {
        Err(OtError::InvalidEncoding) => {}
        _ => panic!("an invalid form byte must be rejected"),
    }
    let mut off_curve = vec![0xffu8; 33];
    off_curve[0] = 0x02;
    match h.bytes_to_pubkey(&off_curve) {
        Err(OtError::InvalidEncoding) => {}
        _ => panic!("an out-of-range x coordinate must be rejected"),
    }
    match h.bytes_to_pubkey(&[]) {
        Err(OtError::InvalidEncoding) => {}
        _ => panic!("an empty encoding must be rejected"),
    }
}

#[test]
fn decrypting_with_wrong_key_never_yields_plaintext() {
    let h = EcHandler::new();
    let key = vec![1u8; 16];
    let other_key = vec![2u8; 16];
    let payload = b"the hidden message".to_vec();
    for _ in 0..20 {
        let blob = h.enc_data(&key, &payload).unwrap();
        if let Ok(garbage) = h.dec_data(&other_key, &blob) {
            assert_ne!(garbage, payload);
        }
    }
}

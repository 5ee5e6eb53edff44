use elgamal_ot::ec_handler::EcHandler;
use elgamal_ot::errors::OtError;
use elgamal_ot::messages::gen_messages;
use elgamal_ot::ot::{Receiver, Sender};

#[test]
fn matching_index_key_agreement() {
    let receiver = Receiver::new().unwrap();
    let sender = Sender::new();
    let eph = sender.ec_handler.gen_key().unwrap();
    let eph_pub = eph.public_point();
    for choice in [0u32, 1, 2, 5, 250] {
        let hidden = receiver.hide_choice(choice, &eph_pub);
        let item_key = sender.get_item_key(choice, &eph, &hidden);
        let dec_key = receiver.get_dec_key(&eph_pub);
        assert_eq!(item_key, dec_key);
    }
}

#[test]
fn different_indexes_give_unrelated_keys() {
    let receiver = Receiver::new().unwrap();
    let sender = Sender::new();
    for _ in 0..20 {
        let eph = sender.ec_handler.gen_key().unwrap();
        let eph_pub = eph.public_point();
        let hidden = receiver.hide_choice(2, &eph_pub);
        let k1 = sender.get_item_key(1, &eph, &hidden);
        let k2 = sender.get_item_key(2, &eph, &hidden);
        let k3 = sender.get_item_key(3, &eph, &hidden);
        assert_ne!(k1, k2);
        assert_ne!(k2, k3);
        assert_ne!(k1, k3);
    }
}

#[test]
fn three_messages_scenario() {
    let receiver = Receiver::new().unwrap();
    let sender = Sender::new();
    let eph = sender.ec_handler.gen_key().unwrap();
    let eph_pub_bytes = eph.public_bytes();
    let indexes = vec![1u8, 2, 3];
    let messages = gen_messages(3);
    assert_eq!(messages[0], b"Message 1".to_vec());
    assert_eq!(messages[1], b"Message 2".to_vec());
    assert_eq!(messages[2], b"Message 3".to_vec());

    let sender_pub = receiver.ec_handler.bytes_to_pubkey(&eph_pub_bytes).unwrap();
    let hidden = receiver.hide_choice(2, &sender_pub);

    let hidden_bytes = receiver.ec_handler.pubkey_to_bytes(&hidden);
    let hidden_point = sender.ec_handler.bytes_to_pubkey(&hidden_bytes).unwrap();
    let ciphertexts = sender.enc_items(&indexes, &messages, &eph, &hidden_point).unwrap();
    assert_eq!(ciphertexts.len(), 3);

    let results = receiver.dec_items(&ciphertexts, &sender_pub);
    assert_eq!(results.len(), 3);
    assert_eq!(results[1].as_ref().unwrap(), &b"Message 2".to_vec());
    for j in [0usize, 2] {
        if let Ok(m) = &results[j] {
            assert_ne!(m, &b"Message 2".to_vec());
        }
    }
}

#[test]
fn batch_integrity_counts_and_mismatch() {
    let receiver = Receiver::new().unwrap();
    let sender = Sender::new();
    let eph = sender.ec_handler.gen_key().unwrap();
    let eph_pub = eph.public_point();
    let hidden = receiver.hide_choice(1, &eph_pub);

    let indexes = vec![1u8, 2, 3, 4];
    let messages = gen_messages(4);
    let ciphertexts = sender.enc_items(&indexes, &messages, &eph, &hidden).unwrap();
    assert_eq!(ciphertexts.len(), 4);

    let short_messages = gen_messages(3);
    match sender.enc_items(&indexes, &short_messages, &eph, &hidden) {
        Err(OtError::LengthMismatch) => {}
        _ => panic!("a count mismatch must be rejected as LengthMismatch"),
    }
}

#[test]
fn scalar_multiply_identity_edge() {
    let receiver = Receiver::new().unwrap();
    let h = &receiver.ec_handler;
    let p = receiver.get_pubkey();

    let identity = h.ec_mul(&p, 0);
    assert_eq!(h.pubkey_to_bytes(&identity), vec![0u8]);

    let still_identity = h.ec_mul(&identity, 5);
    assert_eq!(h.pubkey_to_bytes(&still_identity), vec![0u8]);

    let unchanged = h.ec_add(&p, &identity);
    assert_eq!(h.pubkey_to_bytes(&unchanged), h.pubkey_to_bytes(&p));

    let negated = h.ec_invert(&p);
    let cancelled = h.ec_add(&p, &negated);
    assert_eq!(h.pubkey_to_bytes(&cancelled), vec![0u8]);
}

#[test]
fn gen_messages_contents() {
    let ms = gen_messages(12);
    assert_eq!(ms.len(), 12);
    assert_eq!(ms[0], b"Message 1".to_vec());
    assert_eq!(ms[9], b"Message 10".to_vec());
    assert_eq!(ms[11], b"Message 12".to_vec());
    assert_eq!(gen_messages(0).len(), 0);
}

#[test]
fn gen_items_enc_key_matches_item_keys() {
    let receiver = Receiver::new().unwrap();
    let sender = Sender::new();
    let eph = sender.ec_handler.gen_key().unwrap();
    let hidden = receiver.hide_choice(3, &eph.public_point());
    let indexes = vec![1u8, 2, 3];
    let keys = sender.gen_items_enc_key(&indexes, &eph, &hidden);
    assert_eq!(keys.len(), 3);
    for (j, idx) in indexes.iter().enumerate() {
        assert_eq!(keys[j], sender.get_item_key(*idx as u32, &eph, &hidden));
        assert_eq!(keys[j].len(), 16);
    }
    let _ = EcHandler::new();
}

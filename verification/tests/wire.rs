use elgamal_ot::errors::OtError;
use elgamal_ot::framing::{encode_offer, frame_ciphertexts, parse_ciphertexts, parse_offer};
use elgamal_ot::ot::{Receiver, Sender};

#[test]
fn framing_round_trip() {
    let cts: Vec<Vec<u8>> = vec![
        vec![1u8, 2, 3],
        vec![],
        vec![0u8; 40],
        (0u8..=255).collect(),
    ];
    let buf = frame_ciphertexts(&cts).unwrap();
    let back = parse_ciphertexts(&buf).unwrap();
    assert_eq!(back, cts);
}

#[test]
fn framing_empty_batch() {
    let cts: Vec<Vec<u8>> = vec![];
    let buf = frame_ciphertexts(&cts).unwrap();
    assert_eq!(buf.len(), 0);
    assert_eq!(parse_ciphertexts(&buf).unwrap(), cts);
}

#[test]
fn delimiter_like_bytes_survive_framing() {
    let cts: Vec<Vec<u8>> = vec![b"0000".to_vec(), b"ab0000cd".to_vec(), vec![0u8; 8]];
    let buf = frame_ciphertexts(&cts).unwrap();
    assert_eq!(parse_ciphertexts(&buf).unwrap(), cts);
}

#[test]
fn truncated_frame_rejected() {
    let cts = vec![vec![9u8; 10]];
    let mut buf = frame_ciphertexts(&cts).unwrap();
    buf.pop();
    match parse_ciphertexts(&buf) {
        Err(OtError::LengthMismatch) => {}
        _ => panic!("a buffer ending inside an item must be rejected"),
    }
    match parse_ciphertexts(&[1u8, 0, 0]) {
        Err(OtError::LengthMismatch) => {}
        _ => panic!("a buffer ending inside a prefix must be rejected"),
    }
}

#[test]
fn offer_round_trip() {
    let receiver = Receiver::new().unwrap();
    let sender = Sender::new();
    let eph = sender.ec_handler.gen_key().unwrap();
    let eph_pub = eph.public_point();
    let indexes = vec![1u8, 2, 3];
    let buf = encode_offer(&eph_pub, &indexes, &sender.ec_handler);
    assert_eq!(buf.len(), 36);
    let (point, idx) = parse_offer(&buf, &receiver.ec_handler).unwrap();
    assert_eq!(
        receiver.ec_handler.pubkey_to_bytes(&point),
        sender.ec_handler.pubkey_to_bytes(&eph_pub)
    );
    assert_eq!(idx, indexes);
}

#[test]
fn short_offer_rejected() {
    let receiver = Receiver::new().unwrap();
    match parse_offer(&[0u8; 10], &receiver.ec_handler) {
        Err(OtError::LengthMismatch) => {}
        _ => panic!("an offer shorter than one point must be rejected"),
    }
}

#[test]
fn protocol_run_over_the_wire() {
    let receiver = Receiver::new().unwrap();
    let sender = Sender::new();
    let eph = sender.ec_handler.gen_key().unwrap();

    let offer = encode_offer(&eph.public_point(), &[1u8, 2, 3], &sender.ec_handler);
    let (sender_pub, indexes) = parse_offer(&offer, &receiver.ec_handler).unwrap();
    let choice = indexes[2] as u32;
    let hidden = receiver.hide_choice(choice, &sender_pub);
    let response = receiver.ec_handler.pubkey_to_bytes(&hidden);

    let hidden_point = sender.ec_handler.bytes_to_pubkey(&response).unwrap();
    let messages: Vec<Vec<u8>> = vec![b"first".to_vec(), b"second".to_vec(), b"third".to_vec()];
    let cts = sender.enc_items(&indexes, &messages, &eph, &hidden_point).unwrap();
    let payload = frame_ciphertexts(&cts).unwrap();

    let received = parse_ciphertexts(&payload).unwrap();
    let results = receiver.dec_items(&received, &sender_pub);
    assert_eq!(results[2].as_ref().unwrap(), &b"third".to_vec());
}

use oysterpack_message::base58;
use oysterpack_message::crypto::{Nonce, PublicKey};
use oysterpack_message::errors::{DecodingError, EncodingError, Error, ErrorKind, MessageError};
use oysterpack_message::message::{Address, SealedEnvelope, MAX_MSG_SIZE};
use oysterpack_message::metrics::{LabelId, MetricId};
use oysterpack_message::ulid::ULID;

fn envelope(seed: u8, msg: &[u8]) -> SealedEnvelope {
    let mut sender = [0u8; 32];
    let mut recipient = [0u8; 32];
    let mut nonce = [0u8; 24];
    for i in 0..32 {
        sender[i] = seed.wrapping_add(i as u8);
        recipient[i] = seed.wrapping_mul(3).wrapping_add(i as u8);
    }
    for i in 0..24 {
        nonce[i] = seed ^ (i as u8);
    }
    SealedEnvelope::new(
        Address::new(PublicKey(sender)),
        Address::new(PublicKey(recipient)),
        Nonce(nonce),
        msg,
    )
}

fn same(a: &SealedEnvelope, b: &SealedEnvelope) -> bool {
    a.sender() == b.sender()
        && a.recipient() == b.recipient()
        && a.nonce() == b.nonce()
        && a.msg() == b.msg()
}

fn decoding_error() -> Error {
    Error::MessageError(MessageError::DecodingError(
        DecodingError::InvalidSealedEnvelope,
    ))
}

#[test]
fn empty_payload_encodes_to_90_bytes() {
    let e = envelope(1, &[]);
    let mut wire = Vec::new();
    e.encode(&mut wire).unwrap();
    assert_eq!(wire.len(), 90);
    assert_eq!(e.encoded_len(), 90);
    assert_eq!(&wire[0..32], &e.sender().public_key().0[..]);
    assert_eq!(&wire[32..64], &e.recipient().public_key().0[..]);
    assert_eq!(&wire[64..88], &e.nonce().0[..]);
    assert_eq!(&wire[88..90], &[1u8, 0][..]);
}

#[test]
fn length_is_written_in_the_shortest_form_little_endian() {
    for (len, frame) in [
        (0usize, vec![1u8, 0]),
        (1, vec![1, 1]),
        (255, vec![1, 255]),
        (256, vec![2, 0, 1]),
        (0x1234, vec![2, 0x34, 0x12]),
        (65535, vec![2, 255, 255]),
        (65536, vec![4, 0, 0, 1, 0]),
        (MAX_MSG_SIZE, vec![4, 0, 0, 4, 0]),
    ] {
        let msg = vec![0xabu8; len];
        let e = envelope(2, &msg);
        let mut wire = vec![0xee];
        e.encode(&mut wire).unwrap();
        assert_eq!(wire[0], 0xee);
        assert_eq!(wire.len(), 1 + 88 + frame.len() + len);
        assert_eq!(e.encoded_len(), 88 + frame.len() + len);
        assert_eq!(&wire[89..89 + frame.len()], frame.as_slice());
        assert_eq!(&wire[89 + frame.len()..], msg.as_slice());
    }
}

#[test]
fn encode_then_decode_is_the_identity() {
    for len in [0usize, 1, 16, 255, 256, 65535, 65536, 100_000, MAX_MSG_SIZE] {
        let msg: Vec<u8> = (0..len).map(|i| (i * 7 % 256) as u8).collect();
        let e = envelope(len as u8, &msg);
        let mut wire = Vec::new();
        e.encode(&mut wire).unwrap();
        let decoded = SealedEnvelope::decode(&wire).unwrap();
        assert!(same(&e, &decoded));
        let (decoded, next) = SealedEnvelope::decode_at(&wire, 0).unwrap();
        assert!(same(&e, &decoded));
        assert_eq!(next, wire.len());
    }
}

#[test]
fn encoding_is_deterministic() {
    let e = envelope(9, b"the same bytes");
    let (mut a, mut b) = (Vec::new(), Vec::new());
    e.encode(&mut a).unwrap();
    e.encode(&mut b).unwrap();
    assert_eq!(a, b);
}

#[test]
fn envelopes_in_a_stream_are_decoded_in_order() {
    let envelopes = [
        envelope(1, b"first"),
        envelope(2, &[]),
        envelope(3, &vec![5u8; 300]),
        envelope(4, &vec![6u8; 70_000]),
    ];
    let mut wire = Vec::new();
    for e in envelopes.iter() {
        e.encode(&mut wire).unwrap();
    }
    let mut at = 0;
    for e in envelopes.iter() {
        let (decoded, next) = SealedEnvelope::decode_at(&wire, at).unwrap();
        assert!(same(e, &decoded));
        assert_eq!(next - at, e.encoded_len());
        at = next;
    }
    assert_eq!(at, wire.len());
    assert_eq!(
        SealedEnvelope::decode_at(&wire, at).map(|_| ()),
        Err(decoding_error())
    );
    assert_eq!(
        SealedEnvelope::decode_at(&wire, at + 1).map(|_| ()),
        Err(decoding_error())
    );
    // decode looks at the head only
    assert!(same(&envelopes[0], &SealedEnvelope::decode(&wire).unwrap()));
}

#[test]
fn truncated_envelope_does_not_decode() {
    let e = envelope(5, b"truncate me");
    let mut wire = Vec::new();
    e.encode(&mut wire).unwrap();
    for k in 0..wire.len() {
        assert_eq!(
            SealedEnvelope::decode(&wire[..k]).map(|_| ()),
            Err(decoding_error()),
            "prefix of {} bytes",
            k
        );
    }
    let error = SealedEnvelope::decode(&wire[..10]).map(|_| ()).unwrap_err();
    assert_eq!(error.error_kind(), ErrorKind::InvalidSealedEnvelopeDecoding);
}

#[test]
fn tampered_length_does_not_decode() {
    let e = envelope(6, b"0123456789");
    let mut wire = Vec::new();
    e.encode(&mut wire).unwrap();
    // an unknown tag
    for tag in [0u8, 3, 5, 0xc4, 0xff] {
        let mut bad = wire.clone();
        bad[88] = tag;
        assert_eq!(
            SealedEnvelope::decode(&bad).map(|_| ()),
            Err(decoding_error())
        );
    }
    // a length beyond what is there
    let mut bad = wire.clone();
    bad[89] = 11;
    assert_eq!(
        SealedEnvelope::decode(&bad).map(|_| ()),
        Err(decoding_error())
    );
    // a length beyond the limit, with enough bytes behind it
    let mut bad = vec![0u8; 88];
    bad.extend_from_slice(&[4, 1, 0, 4, 0]);
    bad.extend_from_slice(&vec![0u8; MAX_MSG_SIZE + 1]);
    assert_eq!(
        SealedEnvelope::decode(&bad).map(|_| ()),
        Err(decoding_error())
    );
    // a shorter length reads a shorter message
    let mut short = wire.clone();
    short[89] = 9;
    assert_eq!(SealedEnvelope::decode(&short).unwrap().msg(), b"012345678");
}

#[test]
fn reader_takes_any_width_of_the_length() {
    let e = envelope(7, b"abc");
    let mut wire = Vec::new();
    e.encode(&mut wire).unwrap();
    let mut wide = wire[..88].to_vec();
    wide.extend_from_slice(&[4, 3, 0, 0, 0]);
    wide.extend_from_slice(b"abc");
    let (decoded, next) = SealedEnvelope::decode_at(&wide, 0).unwrap();
    assert!(same(&e, &decoded));
    assert_eq!(next, 88 + 5 + 3);
    let mut two = wire[..88].to_vec();
    two.extend_from_slice(&[2, 3, 0]);
    two.extend_from_slice(b"abc");
    assert!(same(&e, &SealedEnvelope::decode(&two).unwrap()));
}

#[test]
fn a_stream_reader_is_told_how_much_to_read() {
    assert_eq!(SealedEnvelope::missing_bytes(&[]), Ok(89));
    assert_eq!(SealedEnvelope::missing_bytes(&[0; 88]), Ok(1));
    for len in [0usize, 200, 300, 66_000] {
        let e = envelope(3, &vec![7u8; len]);
        let mut wire = Vec::new();
        e.encode(&mut wire).unwrap();
        // read as the reader is told, and arrive at the end of the envelope
        let mut have = 0;
        let mut reads = 0;
        loop {
            let missing = SealedEnvelope::missing_bytes(&wire[..have]).unwrap();
            if missing == 0 {
                break;
            }
            have += missing;
            reads += 1;
            assert!(have <= wire.len());
        }
        assert_eq!(have, wire.len());
        assert_eq!(reads, if len == 0 { 2 } else { 3 });
        wire.push(0xff);
        assert_eq!(SealedEnvelope::missing_bytes(&wire), Ok(0));
    }
    let mut bad = vec![0u8; 89];
    bad[88] = 9;
    assert_eq!(SealedEnvelope::missing_bytes(&bad), Err(decoding_error()));
    let mut big = vec![0u8; 88];
    big.extend_from_slice(&[4, 1, 0, 4, 0]);
    assert_eq!(SealedEnvelope::missing_bytes(&big), Err(decoding_error()));
    big[89] = 0;
    assert_eq!(SealedEnvelope::missing_bytes(&big), Ok(MAX_MSG_SIZE));
    assert_eq!(SealedEnvelope::missing_bytes(&big[..90]), Ok(3));
}

#[test]
fn message_beyond_the_limit_is_not_encoded() {
    let e = envelope(8, &vec![0u8; MAX_MSG_SIZE + 1]);
    let mut wire = vec![1, 2, 3];
    let result = e.encode(&mut wire);
    assert_eq!(
        result,
        Err(Error::MessageError(MessageError::EncodingError(
            EncodingError::InvalidSealedEnvelope
        )))
    );
    assert_eq!(
        result.unwrap_err().error_kind(),
        ErrorKind::InvalidSealedEnvelopeEncoding
    );
    assert_eq!(wire, vec![1, 2, 3]);
}

#[test]
fn base58_of_known_bytes() {
    assert_eq!(base58::encode(&[]), "");
    assert_eq!(base58::encode(&[0]), "1");
    assert_eq!(base58::encode(&[0, 1]), "12");
    assert_eq!(base58::encode(&[0x61]), "2g");
    assert_eq!(base58::encode(&[0x62, 0x62, 0x62]), "a3gV");
    assert_eq!(
        base58::encode(&[0, 0, 0, 0x28, 0x7f, 0xb4, 0xcd]),
        "111233QC4"
    );
    assert_eq!(base58::encode(b"Hello World!"), "2NEpo7TZRRrLZSi2U");
    assert_eq!(
        base58::encode(&[0xff; 32]),
        "JEKNVnkbo3jma5nREBBJCDoXFVeKkD56V3xKrvRmWxFG"
    );
    assert_eq!(base58::encode(&[0; 32]), "11111111111111111111111111111111");
}

#[test]
fn base58_encoding_keys() {
    let mut pub_key = [0u8; 32];
    let mut priv_key = [0u8; 32];
    for i in 0..32 {
        pub_key[i] = (i as u8).wrapping_mul(37).wrapping_add(11);
        priv_key[i] = (i as u8).wrapping_mul(91).wrapping_add(5);
    }
    let pub_key = PublicKey(pub_key);

    let pub_key_base58 = base58::encode(&pub_key.0);
    let pub_key_bytes = base58::decode(&pub_key_base58).unwrap();
    let pub_key2 = PublicKey(<[u8; 32]>::try_from(pub_key_bytes.as_slice()).unwrap());
    assert_eq!(pub_key, pub_key2);

    let key_base58 = base58::encode(&priv_key);
    let key_bytes = base58::decode(&key_base58).unwrap();
    let key2 = <[u8; 32]>::try_from(key_bytes.as_slice()).unwrap();
    assert_eq!(priv_key, key2);
}

#[test]
fn base58_decoding() {
    assert_eq!(base58::decode(""), Some(vec![]));
    assert_eq!(base58::decode("1"), Some(vec![0]));
    assert_eq!(base58::decode("12"), Some(vec![0, 1]));
    assert_eq!(base58::decode("2g"), Some(vec![0x61]));
    assert_eq!(base58::decode("a3gV"), Some(vec![0x62, 0x62, 0x62]));
    assert_eq!(
        base58::decode("111233QC4"),
        Some(vec![0, 0, 0, 0x28, 0x7f, 0xb4, 0xcd])
    );
    assert_eq!(
        base58::decode("2NEpo7TZRRrLZSi2U"),
        Some(b"Hello World!".to_vec())
    );
    assert_eq!(
        base58::decode("JEKNVnkbo3jma5nREBBJCDoXFVeKkD56V3xKrvRmWxFG"),
        Some(vec![0xff; 32])
    );
    // characters that are no digits of base 58
    for text in ["0", "O", "I", "l", "2g ", "a3gV!", "é", "11+1"] {
        assert_eq!(base58::decode(text), None, "{:?}", text);
    }
    // every byte string comes back
    for len in 0..40usize {
        for seed in [0u8, 1, 0x80, 0xff] {
            let bytes: Vec<u8> = (0..len)
                .map(|i| if i < len / 3 { 0 } else { seed.wrapping_add(i as u8) })
                .collect();
            assert_eq!(base58::decode(&base58::encode(&bytes)), Some(bytes));
        }
    }
}

#[test]
fn address_and_envelope_in_words() {
    let mut key = [0u8; 32];
    for i in 0..32 {
        key[i] = i as u8;
    }
    let address = Address::new(PublicKey(key));
    assert_eq!(
        address.to_string(),
        "1thX6LZfHDZZKUs92febYZhYRcXddmzfzF2NvTkPNE"
    );
    let mut nonce = [0u8; 24];
    for i in 0..24 {
        nonce[i] = 1 + i as u8;
    }
    let zero = Address::new(PublicKey([0; 32]));
    let sealed = SealedEnvelope::new(address, zero, Nonce(nonce), &[0u8; 1234]);
    assert_eq!(
        sealed.to_string(),
        "1thX6LZfHDZZKUs92febYZhYRcXddmzfzF2NvTkPNE -> 11111111111111111111111111111111, \
         nonce: 6L5yRNPTuciSgXGHqYwn9N6NeoDywHBd, msg.len: 1234"
    );
    let open = sealed.open(Some(vec![])).unwrap();
    assert_eq!(
        open.to_string(),
        "1thX6LZfHDZZKUs92febYZhYRcXddmzfzF2NvTkPNE -> 11111111111111111111111111111111, \
         msg.len: 0"
    );
}

#[test]
fn ulid_text_and_bytes() {
    assert_eq!(ULID(0).to_string(), "00000000000000000000000000");
    assert_eq!(ULID(u128::MAX).to_string(), "7ZZZZZZZZZZZZZZZZZZZZZZZZZ");
    let id = ULID(1872045779718506837202123142606941790);
    assert_eq!(id.to_string(), "01D25FQ9WAVNHPJ5BFGSY2SVJY");
    assert_eq!(
        id.to_bytes(),
        [
            0x01, 0x68, 0x8a, 0xfb, 0xa7, 0x8a, 0xdd, 0x63, 0x69, 0x15, 0x6f, 0x86, 0x7c, 0x2c,
            0xee, 0x5e
        ]
    );
    assert_eq!(ULID::from_bytes(&id.to_bytes()), id);
    assert_eq!(ULID::from_bytes(&[0xff; 16]), ULID(u128::MAX));
    let made = ULID::from_parts(1_546_300_800_000, 0x1234_5678_9abc_def0_1234);
    assert_eq!(made, ULID(1869362962010842752609783420703216180));
    assert_eq!(made.to_string(), "01D03BBF0028T5CY4TQKFF04HM");
    assert_eq!(made.timestamp_ms(), 1_546_300_800_000);
    // bits beyond 48 and 80 do not count
    assert_eq!(ULID::from_parts(1 << 48, 1 << 80), ULID(0));
    assert_eq!(
        ULID::from_parts(u64::MAX, u128::MAX),
        ULID(u128::MAX)
    );
    assert!(ULID::from_parts(1, u128::MAX) < ULID::from_parts(2, 0));
}

#[test]
fn ulid_texts_sort_as_the_identifiers_do() {
    let ids = [
        0u128,
        1,
        31,
        32,
        1 << 79,
        (1 << 80) - 1,
        1 << 80,
        (5 << 80) + 17,
        (6 << 80) + 3,
        u128::MAX - 1,
        u128::MAX,
    ];
    for a in ids {
        for b in ids {
            let (ta, tb) = (ULID(a).to_string(), ULID(b).to_string());
            assert_eq!(ta.len(), 26);
            assert_eq!(a < b, ta < tb, "{} {}", ta, tb);
        }
    }
}

#[test]
fn metric_and_label_names() {
    let metric = MetricId(1872045779718506837202123142606941790);
    assert_eq!(metric.id(), 1872045779718506837202123142606941790);
    assert_eq!(metric.name(), "M01D25FQ9WAVNHPJ5BFGSY2SVJY");
    assert_eq!(metric.ulid(), ULID(1872045779718506837202123142606941790));
    let label = LabelId(1866963020838464595588390333368926107);
    assert_eq!(label.name(), "L01CY864DYQ0CD0AXV1RXZJCZWV");
    assert_eq!(label.ulid().to_string(), "01CY864DYQ0CD0AXV1RXZJCZWV");
    assert_eq!(MetricId::generate(3, 4), MetricId((3 << 80) + 4));
    assert_eq!(MetricId::from(ULID(12)), MetricId(12));
    assert_eq!(LabelId::generate(3, 4).name(), "L00000000030000000000000004");
}

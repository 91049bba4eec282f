use oysterpack_message::crypto::{Digest, Nonce, PublicKey, SignPublicKey};
use oysterpack_message::errors::{Error, ErrorKind, Level, MessageError};
use oysterpack_message::message::{
    Address, EncryptedMessageBytes, MessageBytes, MessageHeader, MessageType, OpenEnvelope,
    SealedEnvelope, SessionId, SignedHash, SignedSessionId, MAX_MSG_SIZE,
    SEALED_ENVELOPE_MIN_SIZE,
};
use oysterpack_message::testing::run_test;
use oysterpack_message::ulid::ULID;

// Stand-ins for the primitives. They have the shape of the real ones: the
// sealed message is a 16-byte tag followed by the message under a key stream,
// a signed message is a 64-byte signature followed by the message.

fn keystream(key: &[u8; 32], nonce: &Nonce, i: usize) -> u8 {
    key[i % 32] ^ nonce.0[i % 24] ^ (i as u8).wrapping_mul(31)
}

fn tag(key: &[u8; 32], nonce: &Nonce, body: &[u8]) -> [u8; 16] {
    let mut tag = [0u8; 16];
    for (i, b) in body.iter().enumerate() {
        tag[i % 16] = tag[i % 16].wrapping_mul(33).wrapping_add(*b) ^ key[i % 32];
    }
    for i in 0..16 {
        tag[i] ^= key[i] ^ nonce.0[i];
    }
    tag
}

fn seal_precomputed(msg: &[u8], nonce: &Nonce, key: &[u8; 32]) -> Vec<u8> {
    let body: Vec<u8> = msg
        .iter()
        .enumerate()
        .map(|(i, b)| b ^ keystream(key, nonce, i))
        .collect();
    let mut sealed = tag(key, nonce, &body).to_vec();
    sealed.extend_from_slice(&body);
    sealed
}

fn open_precomputed(sealed: &[u8], nonce: &Nonce, key: &[u8; 32]) -> Option<Vec<u8>> {
    if sealed.len() < 16 {
        return None;
    }
    let (found, body) = sealed.split_at(16);
    if found != tag(key, nonce, body) {
        return None;
    }
    Some(
        body.iter()
            .enumerate()
            .map(|(i, b)| b ^ keystream(key, nonce, i))
            .collect(),
    )
}

// A shared key of two peers: the same whichever side computes it.
fn precompute(public_key: &PublicKey, secret_key: &[u8; 32]) -> [u8; 32] {
    let mut key = [0u8; 32];
    for i in 0..32 {
        key[i] = public_key.0[i] ^ public_of(secret_key).0[i];
    }
    key
}

fn public_of(secret_key: &[u8; 32]) -> PublicKey {
    let mut public_key = [0u8; 32];
    for i in 0..32 {
        public_key[i] = secret_key[i].wrapping_mul(7).wrapping_add(13);
    }
    PublicKey(public_key)
}

fn keypair(seed: u8) -> (PublicKey, [u8; 32]) {
    let mut secret_key = [0u8; 32];
    for i in 0..32 {
        secret_key[i] = seed.wrapping_add(i as u8).wrapping_mul(17);
    }
    (public_of(&secret_key), secret_key)
}

fn sign_keypair(seed: u8) -> (SignPublicKey, [u8; 32]) {
    let (public_key, secret_key) = keypair(seed);
    (SignPublicKey(public_key.0), secret_key)
}

fn signature(msg: &[u8], public_key: &[u8; 32]) -> [u8; 64] {
    let mut signature = [0u8; 64];
    for i in 0..64 {
        signature[i] = public_key[i % 32] ^ (i as u8);
    }
    for (i, b) in msg.iter().enumerate() {
        signature[i % 64] = signature[i % 64].wrapping_mul(31).wrapping_add(*b);
    }
    signature
}

fn sign(msg: &[u8], secret_key: &[u8; 32]) -> Vec<u8> {
    let mut signed = signature(msg, &public_of(secret_key).0).to_vec();
    signed.extend_from_slice(msg);
    signed
}

fn verify(signed: &[u8], public_key: &SignPublicKey) -> Option<Vec<u8>> {
    if signed.len() < 64 {
        return None;
    }
    let (found, msg) = signed.split_at(64);
    if found != signature(msg, &public_key.0) {
        return None;
    }
    Some(msg.to_vec())
}

fn hash(msg: &[u8]) -> Digest {
    let mut digest = [0u8; 32];
    for (i, b) in msg.iter().enumerate() {
        digest[i % 32] = digest[i % 32].wrapping_mul(131).wrapping_add(*b).wrapping_add(i as u8);
    }
    Digest(digest)
}

fn nonce(n: u8) -> Nonce {
    let mut bytes = [0u8; 24];
    for i in 0..24 {
        bytes[i] = n.wrapping_add(i as u8);
    }
    Nonce(bytes)
}

#[test]
fn seal_open_envelope() {
    let (client_pub_key, client_priv_key) = keypair(1);
    let (server_pub_key, server_priv_key) = keypair(2);

    let (client_addr, server_addr) =
        (Address::from(client_pub_key), Address::from(server_pub_key));
    let opening_key = precompute(client_addr.public_key(), &server_priv_key);
    let sealing_key = precompute(server_addr.public_key(), &client_priv_key);
    let msg = b"data";
    const FOO: MessageType = MessageType(1866963020838464595588390333368926107);
    assert_eq!(MessageHeader::new(FOO).msg_type(), FOO);

    run_test("seal_open_envelope", || {
        println!("addresses: {} -> {}", client_addr.to_string(), server_addr.to_string());
        let open_envelope =
            OpenEnvelope::new(client_pub_key.into(), server_pub_key.into(), msg);
        let n = nonce(1);
        let ciphertext = seal_precomputed(open_envelope.msg(), &n, &sealing_key);
        let sealed_envelope = open_envelope.seal(n, ciphertext);
        println!("sealed_envelope msg len: {}", sealed_envelope.msg().len());

        let opened = open_precomputed(sealed_envelope.msg(), sealed_envelope.nonce(), &opening_key);
        let open_envelope_2 = sealed_envelope.open(opened).unwrap();
        println!("open_envelope_2 msg len: {}", open_envelope_2.msg().len());
        assert_eq!(*open_envelope_2.msg(), *msg);
    });

    let msg = &[0 as u8; 1000 * 256];
    let msg = &msg[..];
    let open_envelope =
        OpenEnvelope::new(client_pub_key.into(), server_pub_key.into(), msg);
    run_test("seal_envelope", || {
        let n = nonce(2);
        let ciphertext = seal_precomputed(open_envelope.msg(), &n, &sealing_key);
        let _ = open_envelope.seal(n, ciphertext);
    });

    let open_envelope =
        OpenEnvelope::new(client_pub_key.into(), server_pub_key.into(), msg);
    let n = nonce(3);
    let ciphertext = seal_precomputed(open_envelope.msg(), &n, &sealing_key);
    let sealed_envelope = open_envelope.seal(n, ciphertext);
    run_test("open_envelope", || {
        let opened = open_precomputed(sealed_envelope.msg(), sealed_envelope.nonce(), &opening_key);
        let _ = sealed_envelope.open(opened).unwrap();
    });
}

#[test]
fn sealed_envelope_encoding_decoding() {
    let (client_pub_key, client_priv_key) = keypair(1);
    let (server_pub_key, _server_priv_key) = keypair(2);

    let (client_addr, server_addr) =
        (Address::from(client_pub_key), Address::from(server_pub_key));
    let sealing_key = precompute(server_addr.public_key(), &client_priv_key);

    run_test("sealed_envelope_encoding_decoding", || {
        println!("addresses: {} -> {}", client_addr.to_string(), server_addr.to_string());
        let open_envelope =
            OpenEnvelope::new(client_pub_key.into(), server_pub_key.into(), b"");
        let n = nonce(4);
        let ciphertext = seal_precomputed(open_envelope.msg(), &n, &sealing_key);
        let sealed_envelope = open_envelope.seal(n, ciphertext);

        let mut buf: Vec<u8> = Vec::new();
        sealed_envelope.encode(&mut buf).unwrap();
        println!(
            "SealedEnvelope[{}]: {:?} - {}",
            buf.as_slice().len(),
            buf.as_slice(),
            sealed_envelope.msg().len()
        );

        let sealed_envelope_decoded = SealedEnvelope::decode(buf.as_slice()).unwrap();
        assert_eq!(sealed_envelope.sender(), sealed_envelope_decoded.sender());
        assert_eq!(
            sealed_envelope.recipient(),
            sealed_envelope_decoded.recipient()
        );
        assert_eq!(sealed_envelope.nonce(), sealed_envelope_decoded.nonce());
        assert_eq!(sealed_envelope.msg(), sealed_envelope_decoded.msg());

        let sealed_envelope = SealedEnvelope::new(
            *sealed_envelope.sender(),
            *sealed_envelope.recipient(),
            *sealed_envelope.nonce(),
            &[1],
        );
        let mut buf: Vec<u8> = Vec::new();
        sealed_envelope.encode(&mut buf).unwrap();
        println!(
            "SealedEnvelope[{}]: {:?} - {}",
            buf.as_slice().len(),
            buf.as_slice(),
            sealed_envelope.msg().len()
        );
        assert_eq!(buf.len(), 91);
        assert_eq!(SealedEnvelope::decode(buf.as_slice()).unwrap().msg(), &[1u8][..]);
    });
}

#[test]
fn signed_session_id() {
    let (client_pub_key, client_priv_key) = sign_keypair(5);

    let session_id_1 = SessionId::generate(1_546_300_800_000, 0x1234_5678_9abc_def0_1234);
    let signed_session_id_1 = session_id_1.sign(sign(&session_id_1.to_bytes(), &client_priv_key));

    let session_id_2 = signed_session_id_1
        .verify(&client_pub_key, verify(signed_session_id_1.data(), &client_pub_key))
        .unwrap();
    assert_eq!(session_id_1, session_id_2);

    let signed_session_id_2 = session_id_2.sign(sign(&session_id_2.to_bytes(), &client_priv_key));
    assert_eq!(signed_session_id_1, signed_session_id_2);
}

#[test]
fn encrypted_signed_hash() {
    let (client_pub_key, client_priv_key) = sign_keypair(6);
    let cipher = [7u8; 32];

    let data = b"some data";
    let data_hash = hash(data);
    let signed_hash_1 = SignedHash::sign(sign(&data_hash.0, &client_priv_key));
    let (nonce_1, nonce_2) = (nonce(10), nonce(11));
    let encrypted_signed_hash_1 = signed_hash_1.encrypt(
        seal_precomputed(signed_hash_1.data(), &nonce_1, &cipher),
        nonce_1,
    );
    let encrypted_signed_hash_2 = signed_hash_1.encrypt(
        seal_precomputed(signed_hash_1.data(), &nonce_2, &cipher),
        nonce_2,
    );
    assert_ne!(
        encrypted_signed_hash_1.nonce(),
        encrypted_signed_hash_2.nonce(),
        "A new nonce should be used each time the signed session id is encrypted"
    );
    assert_ne!(encrypted_signed_hash_1.data(), encrypted_signed_hash_2.data());
    let opened_1 = open_precomputed(
        encrypted_signed_hash_1.data(),
        encrypted_signed_hash_1.nonce(),
        &cipher,
    )
    .map(|signed| verify(&signed, &client_pub_key));
    let opened_2 = open_precomputed(
        encrypted_signed_hash_2.data(),
        encrypted_signed_hash_2.nonce(),
        &cipher,
    )
    .map(|signed| verify(&signed, &client_pub_key));
    let digest_1 = encrypted_signed_hash_1
        .verify(&client_pub_key, opened_1)
        .unwrap();
    let digest_2 = encrypted_signed_hash_2
        .verify(&client_pub_key, opened_2)
        .unwrap();
    assert_eq!(digest_1, digest_2);
    assert_eq!(digest_1, data_hash);
}

#[test]
fn open_keeps_sender_recipient_and_payload() {
    let (a, a_sec) = keypair(21);
    let (b, b_sec) = keypair(22);
    for len in [0usize, 1, 255, 256, 70_000] {
        let payload: Vec<u8> = (0..len).map(|i| (i % 251) as u8).collect();
        let envelope = OpenEnvelope::new(Address::new(a), Address::new(b), &payload);
        let n = nonce(len as u8);
        let ciphertext = seal_precomputed(envelope.msg(), &n, &precompute(&b, &a_sec));
        let sealed = envelope.seal(n, ciphertext);
        assert_eq!(sealed.sender().public_key(), &a);
        assert_eq!(sealed.recipient().public_key(), &b);
        assert_eq!(sealed.nonce(), &n);
        assert_eq!(sealed.msg().len(), len + 16);
        let opened = open_precomputed(sealed.msg(), sealed.nonce(), &precompute(&a, &b_sec));
        let reopened = sealed.open(opened).unwrap();
        assert_eq!(reopened.sender().public_key(), &a);
        assert_eq!(reopened.recipient().public_key(), &b);
        assert_eq!(reopened.msg(), payload.as_slice());
    }
}

#[test]
fn open_of_a_tampered_ciphertext_fails() {
    let (a, a_sec) = keypair(31);
    let (b, b_sec) = keypair(32);
    let envelope = OpenEnvelope::new(Address::new(a), Address::new(b), b"payload");
    let n = nonce(9);
    let mut ciphertext = seal_precomputed(envelope.msg(), &n, &precompute(&b, &a_sec));
    ciphertext[20] ^= 1;
    let sealed = envelope.seal(n, ciphertext);
    let opened = open_precomputed(sealed.msg(), sealed.nonce(), &precompute(&a, &b_sec));
    assert!(opened.is_none());
    match sealed.open(opened) {
        Err(Error::SealedEnvelopeOpenFailed(e)) => {
            assert_eq!(e.sender, a);
            assert_eq!(e.recipient, b);
            assert_eq!(e.nonce, n);
            assert_eq!(e.msg_len, 7 + 16);
        }
        other => panic!("unexpected: {:?}", other.map(|_| ())),
    }
}

#[test]
fn two_seals_of_one_plaintext_differ_with_their_nonces() {
    let (a, a_sec) = keypair(41);
    let (b, _) = keypair(42);
    let key = precompute(&b, &a_sec);
    let first = OpenEnvelope::new(Address::new(a), Address::new(b), b"same");
    let second = OpenEnvelope::new(Address::new(a), Address::new(b), b"same");
    let (n1, n2) = (nonce(1), nonce(2));
    let first = first.seal(n1, seal_precomputed(b"same", &n1, &key));
    let second = second.seal(n2, seal_precomputed(b"same", &n2, &key));
    assert_ne!(first.nonce(), second.nonce());
    assert_ne!(first.msg(), second.msg());
}

#[test]
fn message_bytes_hold_what_they_were_given() {
    assert_eq!(MessageBytes::from(vec![1u8, 2]), MessageBytes::new(&[1, 2]));
    assert_eq!(
        EncryptedMessageBytes::from(vec![3u8]),
        EncryptedMessageBytes::new(&[3])
    );
    assert_eq!(SignedHash::from(vec![4u8, 5]).data(), &[4u8, 5][..]);
    assert_eq!(SessionId::from(ULID(9)).ulid(), ULID(9));
    assert_eq!(
        Address::from(PublicKey([7; 32])).public_key(),
        &PublicKey([7; 32])
    );
    let clear = MessageBytes::new(b"abc");
    assert_eq!(clear.data(), b"abc");
    assert_eq!(MessageBytes::from_vec(vec![1, 2, 3]).data(), &[1u8, 2, 3][..]);
    let sealed = EncryptedMessageBytes::new(&[9, 8]);
    assert_eq!(sealed.data(), &[9u8, 8][..]);
    assert_eq!(EncryptedMessageBytes::from_vec(vec![]).data(), &[0u8; 0][..]);
    assert_eq!(MAX_MSG_SIZE, 256 * 1024);
    assert_eq!(SEALED_ENVELOPE_MIN_SIZE, 90);
}

#[test]
fn session_id_is_the_ulid_of_its_parts() {
    let id = SessionId::generate(1, 2);
    assert_eq!(id.ulid(), ULID((1u128 << 80) + 2));
    assert_eq!(SessionId::new(ULID(7)).ulid(), ULID(7));
    let bytes = id.to_bytes();
    assert_eq!(bytes, [0, 0, 0, 0, 0, 1, 0, 0, 0, 0, 0, 0, 0, 0, 0, 2]);
    assert_eq!(id.to_string(), "00000000010000000000000002");
    let earlier = SessionId::generate(5, u128::MAX);
    let later = SessionId::generate(6, 0);
    assert!(earlier < later);
}

#[test]
fn signed_session_id_failures() {
    let (public_key, secret_key) = sign_keypair(50);
    let (other_key, _) = sign_keypair(51);
    let id = SessionId::generate(1000, 77);
    let signed = SignedSessionId::from_session_id(id, sign(&id.to_bytes(), &secret_key));

    // the signature does not verify against another key
    let result = signed.verify(&other_key, verify(signed.data(), &other_key));
    assert_eq!(
        result,
        Err(Error::MessageError(MessageError::InvalidSignature(other_key)))
    );

    // what was signed has another length
    let long = SignedSessionId::from_session_id(id, sign(&[0u8; 17], &secret_key));
    let result = long.verify(&public_key, verify(long.data(), &public_key));
    assert_eq!(
        result,
        Err(Error::MessageError(MessageError::InvalidSessionIdLength {
            from: public_key,
            len: 17
        }))
    );
    let short = SignedSessionId::from_session_id(id, sign(&[], &secret_key));
    let result = short.verify(&public_key, verify(short.data(), &public_key));
    assert_eq!(
        result,
        Err(Error::MessageError(MessageError::InvalidSessionIdLength {
            from: public_key,
            len: 0
        }))
    );
}

#[test]
fn signed_hash_verifies_the_message() {
    let (public_key, secret_key) = sign_keypair(60);
    let (other_key, _) = sign_keypair(61);
    let msg = b"a message";
    let signed = SignedHash::sign(sign(&hash(msg).0, &secret_key));

    assert_eq!(
        signed.verify(&public_key, verify(signed.data(), &public_key), &hash(msg)),
        Ok(())
    );
    // bytes altered after signing
    assert_eq!(
        signed.verify(&public_key, verify(signed.data(), &public_key), &hash(b"a massage")),
        Err(Error::MessageError(MessageError::ChecksumFailed(public_key)))
    );
    assert_eq!(
        signed.verify(&other_key, verify(signed.data(), &other_key), &hash(msg)),
        Err(Error::MessageError(MessageError::InvalidSignature(other_key)))
    );
    let not_a_digest = SignedHash::sign(sign(&[1, 2, 3], &secret_key));
    assert_eq!(
        not_a_digest.verify(
            &public_key,
            verify(not_a_digest.data(), &public_key),
            &hash(msg)
        ),
        Err(Error::MessageError(MessageError::InvalidDigestLength {
            from: public_key,
            len: 3
        }))
    );
}

#[test]
fn encrypted_signed_hash_failures() {
    let (public_key, secret_key) = sign_keypair(70);
    let digest = hash(b"payload");
    let signed = SignedHash::sign(sign(&digest.0, &secret_key));
    let n = nonce(1);
    let sealed = signed.encrypt(seal_precomputed(signed.data(), &n, &[1u8; 32]), n);

    assert_eq!(
        sealed.verify(&public_key, None),
        Err(Error::MessageError(MessageError::DecryptionFailed(public_key)))
    );
    assert_eq!(
        sealed.verify(&public_key, Some(None)),
        Err(Error::MessageError(MessageError::InvalidSignature(public_key)))
    );
    assert_eq!(
        sealed.verify(&public_key, Some(Some(vec![0u8; 31]))),
        Err(Error::MessageError(MessageError::InvalidDigestLength {
            from: public_key,
            len: 31
        }))
    );
    assert_eq!(sealed.verify(&public_key, Some(Some(digest.0.to_vec()))), Ok(digest));
    // under the wrong key the sealed hash does not open
    let opened = open_precomputed(sealed.data(), sealed.nonce(), &[2u8; 32])
        .map(|signed| verify(&signed, &public_key));
    assert_eq!(
        sealed.verify(&public_key, opened),
        Err(Error::MessageError(MessageError::DecryptionFailed(public_key)))
    );
}

#[test]
fn error_kinds_have_their_ids_and_levels() {
    let key = SignPublicKey([3u8; 32]);
    let e = Error::MessageError(MessageError::ChecksumFailed(key));
    assert_eq!(e.error_kind(), ErrorKind::ChecksumFailed);
    assert_eq!(e.level(), Level::Error);
    assert_eq!(e.id(), ErrorKind::ChecksumFailed.error_id());
    let kinds = [
        ErrorKind::AioContextChannelClosed,
        ErrorKind::AioContextAtMaxCapacity,
        ErrorKind::ListenerStartError,
        ErrorKind::AioCreateError,
        ErrorKind::AioReceiveError,
        ErrorKind::AioContextError,
        ErrorKind::AioSendError,
        ErrorKind::SealedEnvelopeOpenFailed,
        ErrorKind::InvalidSealedEnvelopeDecoding,
        ErrorKind::InvalidSealedEnvelopeEncoding,
        ErrorKind::InvalidSignature,
        ErrorKind::InvalidDigestLength,
        ErrorKind::InvalidSessionIdLength,
        ErrorKind::DecryptionFailed,
        ErrorKind::ChecksumFailed,
    ];
    for (i, a) in kinds.iter().enumerate() {
        for (j, b) in kinds.iter().enumerate() {
            assert_eq!(a.error_id() == b.error_id(), i == j);
        }
        let alert = i < 2;
        assert_eq!(a.error_level() == Level::Alert, alert);
    }
    assert_eq!(
        ErrorKind::ListenerStartError.error_id().0,
        1870302624499038905208367552914704572
    );
    assert_eq!(
        ErrorKind::AioCreateError.error_id().0,
        1870313585057930209197631174282877574
    );
    assert_eq!(
        ErrorKind::AioReceiveError.error_id().0,
        1870374078796088086815067802169113773
    );
    assert_eq!(
        ErrorKind::AioContextError.error_id().0,
        1870374278155759380545373361718947172
    );
}

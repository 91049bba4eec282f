//! The wire format of sealed envelopes.
//!
//! An envelope is written as the public key of the sender (32 bytes), the
//! public key of the recipient (32 bytes), the nonce (24 bytes), the length of
//! the sealed message and the sealed message. The length is written as a tag,
//! which says how many bytes the length takes (1, 2 or 4), followed by the
//! length in that many bytes, little-endian. The writer takes the shortest
//! form; the reader takes any. An envelope tells where it ends, so envelopes
//! can follow one another in a stream.

use vstd::prelude::*;
use crate::bytes::{array24, array32, push_bytes, sub_vec};
use crate::crypto::Nonce;
use crate::crypto::PublicKey;
use crate::errors::{DecodingError, EncodingError, Error, MessageError};
use crate::message::{Address, SealedEnvelope, SealedEnvelopeView, MAX_MSG_SIZE};

verus! {

/// Number of bytes in front of the length: two public keys and a nonce.
pub const HEADER_SIZE: usize = 88;

/// How the length `n` of a message is written: in one byte below 256, in two
/// below 65536, in four above; in front of it the number of those bytes.
pub open spec fn length_frame(n: nat) -> Seq<u8> {
    if n < 0x100 {
        seq![1u8, n as u8]
    } else if n < 0x1_0000 {
        seq![2u8, (n % 256) as u8, (n / 256) as u8]
    } else {
        seq![
            4u8,
            (n % 256) as u8,
            (n / 0x100 % 256) as u8,
            (n / 0x1_0000 % 256) as u8,
            (n / 0x100_0000 % 256) as u8,
        ]
    }
}

/// Whether an envelope can be put on the wire: its keys and nonce have their
/// lengths, and its message is within the size limit.
pub open spec fn encodable(envelope: SealedEnvelopeView) -> bool {
    envelope.wf() && envelope.msg.len() <= MAX_MSG_SIZE
}

/// The bytes of an envelope on the wire.
pub open spec fn encoding(envelope: SealedEnvelopeView) -> Seq<u8> {
    envelope.sender + envelope.recipient + envelope.nonce + length_frame(envelope.msg.len())
        + envelope.msg
}

/// The length that starts at byte 88 of `bytes`, with the number of bytes
/// that the tag and the length take; `None` where the bytes end before the
/// length does or the tag is none of 1, 2 and 4.
pub open spec fn frame_at(bytes: Seq<u8>) -> Option<(nat, nat)> {
    if bytes.len() < 89 {
        None
    } else if bytes[88] == 1 {
        if bytes.len() < 90 {
            None
        } else {
            Some((bytes[89] as nat, 2nat))
        }
    } else if bytes[88] == 2 {
        if bytes.len() < 91 {
            None
        } else {
            Some(((bytes[89] + bytes[90] * 0x100) as nat, 3nat))
        }
    } else if bytes[88] == 4 {
        if bytes.len() < 93 {
            None
        } else {
            Some(
                (
                    (bytes[89] + bytes[90] * 0x100 + bytes[91] * 0x1_0000 + bytes[92]
                        * 0x100_0000) as nat,
                    5nat,
                ),
            )
        }
    } else {
        None
    }
}

/// The envelope at the head of `bytes`, with the number of bytes that it
/// takes; `None` where the bytes end before the envelope does, the tag of the
/// length is unknown, or the length is beyond the size limit.
pub open spec fn decoding(bytes: Seq<u8>) -> Option<(SealedEnvelopeView, nat)> {
    match frame_at(bytes) {
        None => None,
        Some((n, width)) => if n > MAX_MSG_SIZE || bytes.len() < 88 + width + n {
            None
        } else {
            Some(
                (
                    SealedEnvelopeView {
                        sender: bytes.subrange(0, 32),
                        recipient: bytes.subrange(32, 64),
                        nonce: bytes.subrange(64, 88),
                        msg: bytes.subrange(88 + width as int, 88 + width + n as int),
                    },
                    88 + width + n,
                ),
            )
        },
    }
}

/// Number of bytes that are still to come before `bytes` holds the envelope
/// at its head, as far as `bytes` tells: up to the tag of the length, then up
/// to the end of the length, then up to the end of the message. It is 0 where
/// the envelope is complete, and `None` where no bytes to come can make an
/// envelope of `bytes`.
pub open spec fn missing(bytes: Seq<u8>) -> Option<nat> {
    if bytes.len() < 89 {
        Some((89 - bytes.len()) as nat)
    } else if bytes[88] != 1 && bytes[88] != 2 && bytes[88] != 4 {
        None
    } else {
        let width = (bytes[88] + 1) as nat;
        if bytes.len() < 88 + width {
            Some((88 + width - bytes.len()) as nat)
        } else {
            match frame_at(bytes) {
                None => None,
                Some((n, _)) => if n > MAX_MSG_SIZE {
                    None
                } else if bytes.len() < 88 + width + n {
                    Some((88 + width + n - bytes.len()) as nat)
                } else {
                    Some(0)
                },
            }
        }
    }
}

/// The envelope that starts at byte `at` of `bytes`, with the place where the
/// next one starts; `None` where the bytes from `at` on hold no envelope.
pub open spec fn decoding_at(bytes: Seq<u8>, at: nat) -> Option<(SealedEnvelopeView, nat)> {
    if at > bytes.len() {
        None
    } else {
        match decoding(bytes.skip(at as int)) {
            Some((envelope, n)) => Some((envelope, at + n)),
            None => None,
        }
    }
}

/// The bytes of the envelopes `envelopes` on the wire, one after the other.
pub open spec fn stream(envelopes: Seq<SealedEnvelopeView>) -> Seq<u8>
    decreases envelopes.len(),
{
    if envelopes.len() == 0 {
        Seq::empty()
    } else {
        encoding(envelopes.first()) + stream(envelopes.drop_first())
    }
}

/// The first `count` envelopes of `bytes`, read one after the other, with
/// the bytes that are left; `None` where one of them cannot be read.
pub open spec fn decoding_all(bytes: Seq<u8>, count: nat) -> Option<
    (Seq<SealedEnvelopeView>, Seq<u8>),
>
    decreases count,
{
    if count == 0 {
        Some((Seq::empty(), bytes))
    } else {
        match decoding(bytes) {
            None => None,
            Some((first, n)) => match decoding_all(bytes.skip(n as int), (count - 1) as nat) {
                None => None,
                Some((others, rest)) => Some((seq![first] + others, rest)),
            },
        }
    }
}

/// The size of an envelope on the wire: 88 bytes of keys and nonce, the
/// length in 2, 3 or 5 bytes, and the message.
pub proof fn lemma_encoding_len(envelope: SealedEnvelopeView)
    requires
        envelope.wf(),
    ensures
        encoding(envelope).len() == 88 + length_frame(envelope.msg.len()).len()
            + envelope.msg.len(),
        length_frame(envelope.msg.len()).len() == if envelope.msg.len() < 0x100 {
            2nat
        } else if envelope.msg.len() < 0x1_0000 {
            3nat
        } else {
            5nat
        },
{
}

/// No envelope takes less than 90 bytes on the wire, and the ones that take
/// exactly 90 are those with an empty message.
pub proof fn lemma_min_size(envelope: SealedEnvelopeView)
    requires
        envelope.wf(),
    ensures
        encoding(envelope).len() >= 90,
        encoding(envelope).len() == 90 <==> envelope.msg.len() == 0,
{
    lemma_encoding_len(envelope);
}

/// The length that was written is the length that is read.
proof fn lemma_frame_round_trip(envelope: SealedEnvelopeView, rest: Seq<u8>)
    requires
        encodable(envelope),
    ensures
        frame_at(encoding(envelope) + rest) == Some(
            (envelope.msg.len(), length_frame(envelope.msg.len()).len()),
        ),
{
    let n = envelope.msg.len();
    let bytes = encoding(envelope) + rest;
    let frame = length_frame(n);
    assert(bytes.len() >= 88 + frame.len());
    assert forall|i: int| 0 <= i < frame.len() implies bytes[88 + i] == frame[i] by {}
    assert(bytes[88] == frame[0]);
    assert(bytes[89] == frame[1]);
    if n < 0x100 {
    } else if n < 0x1_0000 {
        assert(bytes[90] == frame[2]);
        assert(n % 256 + (n / 256) * 0x100 == n);
    } else {
        assert(bytes[90] == frame[2]);
        assert(bytes[91] == frame[3]);
        assert(bytes[92] == frame[4]);
        assert(n < 0x1_0000_0000);
        assert(n % 256 + (n / 0x100 % 256) * 0x100 + (n / 0x1_0000 % 256) * 0x1_0000 + (n
            / 0x100_0000 % 256) * 0x100_0000 == n);
    }
}

/// Round trip: an envelope that is written and read again is the envelope it
/// was, whatever follows it in the stream, and the reader stops where the
/// envelope ends.
pub proof fn lemma_decode_encode(envelope: SealedEnvelopeView, rest: Seq<u8>)
    requires
        encodable(envelope),
    ensures
        decoding(encoding(envelope) + rest) == Some((envelope, encoding(envelope).len())),
        (encoding(envelope) + rest).skip(encoding(envelope).len() as int) == rest,
{
    let bytes = encoding(envelope) + rest;
    let n = envelope.msg.len();
    let width = length_frame(n).len();
    lemma_frame_round_trip(envelope, rest);
    lemma_encoding_len(envelope);
    assert(bytes.subrange(0, 32) =~= envelope.sender);
    assert(bytes.subrange(32, 64) =~= envelope.recipient);
    assert(bytes.subrange(64, 88) =~= envelope.nonce);
    assert(bytes.subrange(88 + width as int, 88 + width + n as int) =~= envelope.msg);
    assert(bytes.skip(encoding(envelope).len() as int) =~= rest);
}

/// Envelopes that were packed one after the other are read back in order,
/// none is lost, and what followed them is left.
pub proof fn lemma_decode_stream(envelopes: Seq<SealedEnvelopeView>, rest: Seq<u8>)
    requires
        forall|i: int| 0 <= i < envelopes.len() ==> encodable(#[trigger] envelopes[i]),
    ensures
        decoding_all(stream(envelopes) + rest, envelopes.len()) == Some((envelopes, rest)),
    decreases envelopes.len(),
{
    if envelopes.len() == 0 {
        assert(stream(envelopes) + rest =~= rest);
        assert(envelopes =~= Seq::<SealedEnvelopeView>::empty());
    } else {
        let first = envelopes.first();
        let others = envelopes.drop_first();
        let tail = stream(others) + rest;
        assert(stream(envelopes) + rest =~= encoding(first) + tail);
        lemma_decode_encode(first, tail);
        assert forall|i: int| 0 <= i < others.len() implies encodable(#[trigger] others[i]) by {
            assert(others[i] == envelopes[i + 1]);
        }
        lemma_decode_stream(others, rest);
        assert(seq![first] + others =~= envelopes);
    }
}

/// What the reader takes for an envelope does not depend on what follows it.
pub proof fn lemma_decoding_is_local(bytes: Seq<u8>, more: Seq<u8>)
    requires
        decoding(bytes) is Some,
    ensures
        decoding(bytes + more) == decoding(bytes),
{
    let (envelope, n) = decoding(bytes).unwrap();
    let all = bytes + more;
    assert(all[88] == bytes[88]);
    let (len, width) = frame_at(bytes).unwrap();
    assert(all[89] == bytes[89]);
    if width >= 3 {
        assert(all[90] == bytes[90]);
    }
    if width == 5 {
        assert(all[91] == bytes[91]);
        assert(all[92] == bytes[92]);
    }
    assert(frame_at(all) == frame_at(bytes));
    assert(all.subrange(0, 32) =~= bytes.subrange(0, 32));
    assert(all.subrange(32, 64) =~= bytes.subrange(32, 64));
    assert(all.subrange(64, 88) =~= bytes.subrange(64, 88));
    assert(all.subrange(88 + width as int, 88 + width + len as int) =~= bytes.subrange(
        88 + width as int,
        88 + width + len as int,
    ));
}

/// Truncation: bytes that end before the envelope at their head does hold no
/// envelope. If `bytes` holds an envelope of `n` bytes, no shorter prefix of
/// `bytes` holds one.
pub proof fn lemma_truncated_fails(bytes: Seq<u8>, k: int)
    requires
        decoding(bytes) is Some,
        0 <= k < decoding(bytes).unwrap().1,
    ensures
        decoding(bytes.take(k)) is None,
{
    let short = bytes.take(k);
    let (len, width) = frame_at(bytes).unwrap();
    if frame_at(short) is Some {
        assert(short[88] == bytes[88]);
        assert(short[89] == bytes[89]);
        if width >= 3 {
            assert(short[90] == bytes[90]);
        }
        if width == 5 {
            assert(short[91] == bytes[91]);
            assert(short[92] == bytes[92]);
        }
        assert(frame_at(short) == frame_at(bytes));
    }
}

/// An envelope on the wire that is cut short anywhere holds no envelope.
pub proof fn lemma_truncated_encoding_fails(envelope: SealedEnvelopeView, k: int)
    requires
        encodable(envelope),
        0 <= k < encoding(envelope).len(),
    ensures
        decoding(encoding(envelope).take(k)) is None,
{
    lemma_decode_encode(envelope, Seq::empty());
    assert(encoding(envelope) + Seq::<u8>::empty() =~= encoding(envelope));
    lemma_truncated_fails(encoding(envelope), k);
}

/// Nothing is missing exactly when the bytes hold an envelope, and bytes of
/// which nothing can come hold none.
pub proof fn lemma_missing_nothing(bytes: Seq<u8>)
    ensures
        missing(bytes) == Some(0nat) <==> decoding(bytes) is Some,
        missing(bytes) is None ==> decoding(bytes) is None,
{
}

/// Reading an envelope piece by piece comes to its end: of the first `k`
/// bytes of an envelope on the wire something is missing, and no more than
/// the rest of the envelope, unless these are all its bytes; then nothing is
/// missing.
pub proof fn lemma_missing_of_encoding(envelope: SealedEnvelopeView, k: int)
    requires
        encodable(envelope),
        0 <= k <= encoding(envelope).len(),
    ensures
        missing(encoding(envelope).take(k)) matches Some(more) && k + more <= encoding(
            envelope,
        ).len() && (more == 0 <==> k == encoding(envelope).len()),
{
    let all = encoding(envelope);
    let head = all.take(k);
    lemma_decode_encode(envelope, Seq::empty());
    assert(all + Seq::<u8>::empty() =~= all);
    lemma_encoding_len(envelope);
    let (n, width) = frame_at(all).unwrap();
    if k >= 89 {
        assert(head[88] == all[88]);
        if k >= 88 + width {
            assert(head[89] == all[89]);
            if width >= 3 {
                assert(head[90] == all[90]);
            }
            if width == 5 {
                assert(head[91] == all[91]);
                assert(head[92] == all[92]);
            }
            assert(frame_at(head) == frame_at(all));
        }
    }
}

/// A length tag other than 1, 2 and 4 makes the bytes hold no envelope.
pub proof fn lemma_unknown_tag_fails(bytes: Seq<u8>)
    requires
        bytes.len() >= 89,
        bytes[88] != 1 && bytes[88] != 2 && bytes[88] != 4,
    ensures
        decoding(bytes) is None,
{
}

/// The error of a failed decoding.
pub open spec fn decoding_error() -> Error {
    Error::MessageError(MessageError::DecodingError(DecodingError::InvalidSealedEnvelope))
}

/// The error of a failed encoding.
pub open spec fn encoding_error() -> Error {
    Error::MessageError(MessageError::EncodingError(EncodingError::InvalidSealedEnvelope))
}

impl SealedEnvelope {
    /// The size of the envelope on the wire, in bytes.
    pub fn encoded_len(&self) -> (n: usize)
        requires
            self@.msg.len() <= MAX_MSG_SIZE,
        ensures
            n == encoding(self@).len(),
    {
        proof {
            self.lemma_wf();
            lemma_encoding_len(self@);
        }
        let len = self.msg().len();
        if len < 0x100 {
            HEADER_SIZE + 2 + len
        } else if len < 0x1_0000 {
            HEADER_SIZE + 3 + len
        } else {
            HEADER_SIZE + 5 + len
        }
    }

    /// Writes the envelope at the end of `wr`.
    ///
    /// Fails with `EncodingError::InvalidSealedEnvelope`, and writes nothing,
    /// when and only when the message is beyond the size limit.
    pub fn encode(&self, wr: &mut Vec<u8>) -> (result: Result<(), Error>)
        ensures
            result is Ok <==> self@.msg.len() <= MAX_MSG_SIZE,
            result is Ok ==> encodable(self@) && final(wr)@ == old(wr)@ + encoding(self@),
            result matches Err(error) ==> error == encoding_error() && final(wr)@ == old(wr)@,
    {
        let len = self.msg().len();
        if len > MAX_MSG_SIZE {
            return Err(
                Error::MessageError(
                    MessageError::EncodingError(EncodingError::InvalidSealedEnvelope),
                ),
            );
        }
        proof {
            self.lemma_wf();
        }
        push_bytes(wr, self.sender().public_key().0.as_slice());
        push_bytes(wr, self.recipient().public_key().0.as_slice());
        push_bytes(wr, self.nonce().0.as_slice());
        if len < 0x100 {
            wr.push(1u8);
            wr.push(len as u8);
        } else if len < 0x1_0000 {
            wr.push(2u8);
            wr.push((len % 256) as u8);
            wr.push((len / 256) as u8);
        } else {
            wr.push(4u8);
            wr.push((len % 256) as u8);
            wr.push((len / 0x100 % 256) as u8);
            wr.push((len / 0x1_0000 % 256) as u8);
            wr.push((len / 0x100_0000 % 256) as u8);
        }
        assert(wr@ =~= old(wr)@ + (self@.sender + self@.recipient + self@.nonce + length_frame(
            len as nat,
        )));
        push_bytes(wr, self.msg());
        assert(wr@ =~= old(wr)@ + encoding(self@));
        Ok(())
    }

    /// Tells a reader of a stream how many bytes to read next: the number of
    /// bytes that are still to come before `read` holds the envelope at its
    /// head, as far as `read` tells. It is 0 where the envelope is complete.
    ///
    /// Fails with `DecodingError::InvalidSealedEnvelope` when and only when
    /// no bytes to come can make an envelope of `read`: the tag of the length
    /// is unknown, or the length is beyond the size limit.
    pub fn missing_bytes(read: &[u8]) -> (result: Result<usize, Error>)
        ensures
            match missing(read@) {
                Some(n) => result == Ok::<usize, Error>(n as usize) && n <= usize::MAX,
                None => result matches Err(error) && error == decoding_error(),
            },
    {
        let have = read.len();
        if have < HEADER_SIZE + 1 {
            return Ok(HEADER_SIZE + 1 - have);
        }
        let tag = read[88];
        if tag != 1 && tag != 2 && tag != 4 {
            return Err(
                Error::MessageError(
                    MessageError::DecodingError(DecodingError::InvalidSealedEnvelope),
                ),
            );
        }
        let width: usize = tag as usize + 1;
        if have < HEADER_SIZE + width {
            return Ok(HEADER_SIZE + width - have);
        }
        let len: u64 = if tag == 1 {
            read[89] as u64
        } else if tag == 2 {
            read[89] as u64 + read[90] as u64 * 0x100
        } else {
            read[89] as u64 + read[90] as u64 * 0x100 + read[91] as u64 * 0x1_0000 + read[92] as u64
                * 0x100_0000
        };
        if len > MAX_MSG_SIZE as u64 {
            return Err(
                Error::MessageError(
                    MessageError::DecodingError(DecodingError::InvalidSealedEnvelope),
                ),
            );
        }
        let end = HEADER_SIZE + width + len as usize;
        if have < end {
            Ok(end - have)
        } else {
            Ok(0)
        }
    }

    /// Reads the envelope at the head of `read`. What follows the envelope is
    /// not looked at.
    ///
    /// Fails with `DecodingError::InvalidSealedEnvelope` when and only when
    /// the bytes hold no envelope: they end too early, the tag of the length
    /// is unknown, or the length is beyond the size limit.
    pub fn decode(read: &[u8]) -> (result: Result<SealedEnvelope, Error>)
        ensures
            match decoding(read@) {
                Some((envelope, n)) => result matches Ok(e) && e@ == envelope,
                None => result matches Err(error) && error == decoding_error(),
            },
    {
        match Self::decode_at(read, 0) {
            Ok((envelope, _)) => {
                assert(read@.skip(0) =~= read@);
                Ok(envelope)
            },
            Err(error) => {
                assert(read@.skip(0) =~= read@);
                Err(error)
            },
        }
    }

    /// Reads the envelope that starts at byte `at` of `read`, and tells where
    /// the next one starts.
    ///
    /// Fails with `DecodingError::InvalidSealedEnvelope` when and only when
    /// the bytes from `at` on hold no envelope.
    pub fn decode_at(read: &[u8], at: usize) -> (result: Result<(SealedEnvelope, usize), Error>)
        ensures
            match decoding_at(read@, at as nat) {
                Some((envelope, next)) => result matches Ok((e, n)) && e@ == envelope && n == next,
                None => result matches Err(error) && error == decoding_error(),
            },
    {
        let total = read.len();
        if at > total {
            return Err(
                Error::MessageError(
                    MessageError::DecodingError(DecodingError::InvalidSealedEnvelope),
                ),
            );
        }
        let ghost bytes = read@.skip(at as int);
        let have = total - at;
        if have < HEADER_SIZE + 1 {
            return Err(
                Error::MessageError(
                    MessageError::DecodingError(DecodingError::InvalidSealedEnvelope),
                ),
            );
        }
        let tag = read[at + 88];
        assert(bytes[88] == tag);
        let width: usize;
        let len: usize;
        if tag == 1 {
            if have < 90 {
                return Err(
                    Error::MessageError(
                        MessageError::DecodingError(DecodingError::InvalidSealedEnvelope),
                    ),
                );
            }
            assert(bytes[89] == read@[at + 89]);
            width = 2;
            len = read[at + 89] as usize;
        } else if tag == 2 {
            if have < 91 {
                return Err(
                    Error::MessageError(
                        MessageError::DecodingError(DecodingError::InvalidSealedEnvelope),
                    ),
                );
            }
            assert(bytes[89] == read@[at + 89]);
            assert(bytes[90] == read@[at + 90]);
            width = 3;
            len = read[at + 89] as usize + read[at + 90] as usize * 0x100;
        } else if tag == 4 {
            if have < 93 {
                return Err(
                    Error::MessageError(
                        MessageError::DecodingError(DecodingError::InvalidSealedEnvelope),
                    ),
                );
            }
            assert(bytes[89] == read@[at + 89]);
            assert(bytes[90] == read@[at + 90]);
            assert(bytes[91] == read@[at + 91]);
            assert(bytes[92] == read@[at + 92]);
            width = 5;
            let wide: u64 = read[at + 89] as u64 + read[at + 90] as u64 * 0x100 + read[at
                + 91] as u64 * 0x1_0000 + read[at + 92] as u64 * 0x100_0000;
            if wide > MAX_MSG_SIZE as u64 {
                return Err(
                    Error::MessageError(
                        MessageError::DecodingError(DecodingError::InvalidSealedEnvelope),
                    ),
                );
            }
            len = wide as usize;
        } else {
            return Err(
                Error::MessageError(
                    MessageError::DecodingError(DecodingError::InvalidSealedEnvelope),
                ),
            );
        }
        assert(frame_at(bytes) == Some((len as nat, width as nat)));
        if len > MAX_MSG_SIZE || have - HEADER_SIZE - width < len {
            return Err(
                Error::MessageError(
                    MessageError::DecodingError(DecodingError::InvalidSealedEnvelope),
                ),
            );
        }
        let sender = Address::new(PublicKey(array32(read, at)));
        let recipient = Address::new(PublicKey(array32(read, at + 32)));
        let nonce = Nonce(array24(read, at + 64));
        let msg = sub_vec(read, at + HEADER_SIZE + width, len);
        proof {
            assert(read@.subrange(at as int, at + 32) =~= bytes.subrange(0, 32));
            assert(read@.subrange(at + 32, at + 64) =~= bytes.subrange(32, 64));
            assert(read@.subrange(at + 64, at + 88) =~= bytes.subrange(64, 88));
            assert(read@.subrange(at + 88 + width, at + 88 + width + len) =~= bytes.subrange(
                88 + width,
                88 + width + len,
            ));
        }
        let envelope = SealedEnvelope::new(sender, recipient, nonce, msg.as_slice());
        Ok((envelope, at + HEADER_SIZE + width + len))
    }
}

} // verus!

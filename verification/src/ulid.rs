//! Universally unique, lexicographically sortable identifiers: 128 bits, of
//! which the upper 48 are a timestamp in milliseconds and the lower 80 are
//! random.

use vstd::prelude::*;

verus! {

/// Number of characters of the text form of an identifier.
pub const ULID_TEXT_LEN: usize = 26;

/// The digits of Crockford's base 32, in the order of their values.
pub open spec fn crockford_alphabet() -> Seq<char> {
    "0123456789ABCDEFGHJKMNPQRSTVWXYZ"@
}

/// The `n` big-endian bytes of `value`: the last byte holds the lowest eight
/// bits. Bits of `value` beyond `8 * n` are left out.
pub open spec fn be_bytes(value: nat, n: nat) -> Seq<u8>
    decreases n,
{
    if n == 0 {
        Seq::empty()
    } else {
        be_bytes(value / 256, (n - 1) as nat).push((value % 256) as u8)
    }
}

/// The number that the bytes `bytes` write, big-endian.
pub open spec fn be_value(bytes: Seq<u8>) -> nat
    decreases bytes.len(),
{
    if bytes.len() == 0 {
        0
    } else {
        be_value(bytes.drop_last()) * 256 + bytes.last() as nat
    }
}

/// The `n` digits of `value` in Crockford's base 32, highest first. Bits of
/// `value` beyond `5 * n` are left out.
pub open spec fn crockford(value: nat, n: nat) -> Seq<char>
    decreases n,
{
    if n == 0 {
        Seq::empty()
    } else {
        crockford(value / 32, (n - 1) as nat).push(crockford_alphabet()[(value % 32) as int])
    }
}

/// The number of values that `n` bytes can write.
pub open spec fn byte_range(n: nat) -> nat
    decreases n,
{
    if n == 0 {
        1
    } else {
        256 * byte_range((n - 1) as nat)
    }
}

/// `be_bytes` gives as many bytes as it is asked for.
pub proof fn lemma_be_bytes_len(value: nat, n: nat)
    ensures
        be_bytes(value, n).len() == n,
    decreases n,
{
    if n > 0 {
        lemma_be_bytes_len(value / 256, (n - 1) as nat);
    }
}

/// `crockford` gives as many digits as it is asked for.
pub proof fn lemma_crockford_len(value: nat, n: nat)
    ensures
        crockford(value, n).len() == n,
    decreases n,
{
    if n > 0 {
        lemma_crockford_len(value / 32, (n - 1) as nat);
    }
}

/// Writing a number that `n` bytes can hold and reading the bytes again gives
/// the number.
pub proof fn lemma_be_value_of_bytes(value: nat, n: nat)
    requires
        value < byte_range(n),
    ensures
        be_value(be_bytes(value, n)) == value,
    decreases n,
{
    if n > 0 {
        let rest = be_bytes(value / 256, (n - 1) as nat);
        lemma_be_value_of_bytes(value / 256, (n - 1) as nat);
        assert(be_bytes(value, n).drop_last() =~= rest);
    }
}

/// Reading bytes and writing the number in as many bytes gives the bytes.
pub proof fn lemma_be_bytes_of_value(bytes: Seq<u8>)
    ensures
        be_bytes(be_value(bytes), bytes.len()) == bytes,
        be_value(bytes) < byte_range(bytes.len()),
    decreases bytes.len(),
{
    if bytes.len() > 0 {
        lemma_be_bytes_of_value(bytes.drop_last());
        let high = be_value(bytes.drop_last());
        let value = be_value(bytes);
        assert(value / 256 == high && value % 256 == bytes.last() as nat) by {
            assert(value == high * 256 + bytes.last() as nat);
        }
        assert(be_bytes(value, bytes.len()) =~= bytes);
    }
}

/// Sixteen bytes hold every 128-bit number.
pub proof fn lemma_byte_range_16()
    ensures
        byte_range(16) == 0x1_0000_0000_0000_0000_0000_0000_0000_0000,
{
    reveal_with_fuel(byte_range, 17);
}

/// A 128-bit identifier that sorts by the time at which it was made.
#[derive(Debug, Clone, Copy, PartialEq, Eq, Hash, PartialOrd, Ord, Structural)]
pub struct ULID(pub u128);

impl ULID {
    /// The timestamp of an identifier with the number `value`.
    pub open spec fn timestamp_of(value: u128) -> nat {
        (value / 0x1_0000_0000_0000_0000_0000) as nat
    }

    /// The random part of an identifier with the number `value`.
    pub open spec fn randomness_of(value: u128) -> nat {
        (value % 0x1_0000_0000_0000_0000_0000) as nat
    }

    /// The number that puts the lower 48 bits of `timestamp_ms` above the
    /// lower 80 bits of `randomness`.
    pub open spec fn compose(timestamp_ms: u64, randomness: u128) -> nat {
        ((timestamp_ms % 0x1_0000_0000_0000) * 0x1_0000_0000_0000_0000_0000 + randomness
            % 0x1_0000_0000_0000_0000_0000) as nat
    }

    /// The identifier made at `timestamp_ms`, in milliseconds since the Unix
    /// epoch, with the random bits `randomness`. Of the timestamp the lower
    /// 48 bits count, of the random bits the lower 80.
    pub fn from_parts(timestamp_ms: u64, randomness: u128) -> (id: ULID)
        ensures
            id.0 == Self::compose(timestamp_ms, randomness),
            Self::timestamp_of(id.0) == timestamp_ms % 0x1_0000_0000_0000,
            Self::randomness_of(id.0) == randomness % 0x1_0000_0000_0000_0000_0000,
    {
        let high: u128 = (timestamp_ms % 0x1_0000_0000_0000) as u128;
        let low: u128 = randomness % 0x1_0000_0000_0000_0000_0000;
        assert(high * 0x1_0000_0000_0000_0000_0000 + low
            < 0x1_0000_0000_0000_0000_0000_0000_0000_0000 && (high * 0x1_0000_0000_0000_0000_0000
            + low) / 0x1_0000_0000_0000_0000_0000 == high && (high * 0x1_0000_0000_0000_0000_0000
            + low) % 0x1_0000_0000_0000_0000_0000 == low) by (nonlinear_arith)
            requires
                high < 0x1_0000_0000_0000,
                low < 0x1_0000_0000_0000_0000_0000,
        ;
        ULID(high * 0x1_0000_0000_0000_0000_0000 + low)
    }

    /// The timestamp of the identifier, in milliseconds since the Unix epoch.
    pub fn timestamp_ms(&self) -> (t: u64)
        ensures
            t == Self::timestamp_of(self.0),
    {
        (self.0 / 0x1_0000_0000_0000_0000_0000) as u64
    }

    /// The sixteen bytes of the identifier, big-endian.
    pub fn to_bytes(&self) -> (bytes: [u8; 16])
        ensures
            bytes@ == be_bytes(self.0 as nat, 16),
    {
        let mut out = [0u8; 16];
        let mut rest: u128 = self.0;
        let mut k: usize = 0;
        proof {
            assert(out@.subrange(16, 16) =~= be_bytes(self.0 as nat, 0));
        }
        while k < 16
            invariant
                k <= 16,
                be_bytes(self.0 as nat, 16) == be_bytes(rest as nat, (16 - k) as nat) + out@.subrange(
                    16 - k,
                    16,
                ),
            decreases 16 - k,
        {
            let ghost before = out@;
            out[15 - k] = (rest % 256) as u8;
            proof {
                let tail = before.subrange(16 - k, 16);
                assert(out@.subrange(15 - k, 16) =~= seq![(rest % 256) as u8] + tail);
                assert(be_bytes(rest as nat, (16 - k) as nat) == be_bytes(
                    (rest / 256) as nat,
                    (15 - k) as nat,
                ).push((rest % 256) as u8));
                assert(be_bytes((rest / 256) as nat, (15 - k) as nat).push((rest % 256) as u8) + tail
                    =~= be_bytes((rest / 256) as nat, (15 - k) as nat) + (seq![(rest % 256) as u8]
                    + tail));
            }
            rest = rest / 256;
            k = k + 1;
        }
        assert(out@.subrange(0, 16) =~= out@);
        assert(be_bytes(rest as nat, 0) + out@ =~= out@);
        out
    }

    /// The identifier whose sixteen big-endian bytes are `bytes`.
    pub fn from_bytes(bytes: &[u8; 16]) -> (id: ULID)
        ensures
            id.0 == be_value(bytes@),
    {
        let mut value: u128 = 0;
        let mut i: usize = 0;
        proof {
            assert(bytes@.take(0) =~= Seq::<u8>::empty());
        }
        while i < 16
            invariant
                i <= 16,
                value == be_value(bytes@.take(i as int)),
                value < byte_range(i as nat),
            decreases 16 - i,
        {
            proof {
                let next = bytes@.take(i as int + 1);
                assert(next.drop_last() =~= bytes@.take(i as int));
                assert(next.last() == bytes@[i as int]);
                lemma_byte_range_16();
                lemma_byte_range_grows(i as nat, 15);
                assert(byte_range(16) == 256 * byte_range(15));
            }
            value = value * 256 + bytes[i] as u128;
            i = i + 1;
        }
        assert(bytes@.take(16) =~= bytes@);
        ULID(value)
    }

    /// The text form of an identifier with the number `value`: 26 digits of
    /// Crockford's base 32, highest first.
    pub open spec fn text_of(value: u128) -> Seq<char> {
        crockford(value as nat, 26)
    }

    /// The text form of the identifier.
    pub fn to_string(&self) -> (text: String)
        ensures
            text@ == Self::text_of(self.0),
    {
        let mut digits = ['0'; 26];
        let mut rest: u128 = self.0;
        let mut k: usize = 0;
        let alphabet = "0123456789ABCDEFGHJKMNPQRSTVWXYZ";
        proof {
            reveal_strlit("0123456789ABCDEFGHJKMNPQRSTVWXYZ");
            assert(digits@.subrange(26, 26) =~= crockford(self.0 as nat, 0));
        }
        while k < 26
            invariant
                k <= 26,
                alphabet@ == crockford_alphabet(),
                alphabet@.len() == 32,
                crockford(self.0 as nat, 26) == crockford(rest as nat, (26 - k) as nat)
                    + digits@.subrange(26 - k, 26),
            decreases 26 - k,
        {
            let ghost before = digits@;
            let digit = alphabet.get_char((rest % 32) as usize);
            digits[25 - k] = digit;
            proof {
                let tail = before.subrange(26 - k, 26);
                assert(digits@.subrange(25 - k, 26) =~= seq![digit] + tail);
                assert(crockford(rest as nat, (26 - k) as nat) == crockford(
                    (rest / 32) as nat,
                    (25 - k) as nat,
                ).push(digit));
                assert(crockford((rest / 32) as nat, (25 - k) as nat).push(digit) + tail
                    =~= crockford((rest / 32) as nat, (25 - k) as nat) + (seq![digit] + tail));
            }
            rest = rest / 32;
            k = k + 1;
        }
        let mut text = String::new();
        let mut i: usize = 0;
        assert(digits@.subrange(0, 26) =~= digits@);
        assert(crockford(rest as nat, 0) + digits@ =~= digits@);
        while i < 26
            invariant
                i <= 26,
                text@ == digits@.take(i as int),
            decreases 26 - i,
        {
            text.push(digits[i]);
            assert(digits@.take(i as int + 1) =~= digits@.take(i as int).push(digits@[i as int]));
            i = i + 1;
        }
        assert(digits@.take(26) =~= digits@);
        text
    }
}

/// More bytes hold more numbers.
pub proof fn lemma_byte_range_grows(n: nat, m: nat)
    requires
        n <= m,
    ensures
        byte_range(n) <= byte_range(m),
        byte_range(n) >= 1,
    decreases m,
{
    if n < m {
        lemma_byte_range_grows(n, (m - 1) as nat);
    } else if n > 0 {
        lemma_byte_range_grows((n - 1) as nat, (n - 1) as nat);
    }
}

/// An identifier that is written as bytes and read again is the same
/// identifier, and so are bytes that are read and written again.
pub proof fn lemma_bytes_round_trip(value: u128, bytes: Seq<u8>)
    requires
        bytes.len() == 16,
    ensures
        be_value(be_bytes(value as nat, 16)) == value,
        be_bytes(be_value(bytes), 16) == bytes,
        be_value(bytes) <= u128::MAX,
{
    lemma_byte_range_16();
    lemma_be_value_of_bytes(value as nat, 16);
    lemma_be_bytes_of_value(bytes);
}

/// Identifiers sort by time: one with an earlier timestamp is the smaller
/// number, whatever the random parts are.
pub proof fn lemma_sorts_by_time(a: ULID, b: ULID)
    requires
        ULID::timestamp_of(a.0) < ULID::timestamp_of(b.0),
    ensures
        a.0 < b.0,
{
}

/// Whether the text `a` comes before the text `b` in the order of a
/// dictionary: at the first place where they differ, `a` has the lower
/// character.
pub open spec fn comes_before(a: Seq<char>, b: Seq<char>) -> bool {
    exists|k: int|
        0 <= k < a.len() && k < b.len() && #[trigger] a.take(k) == b.take(k) && (a[k] as u32) < (
        b[k] as u32)
}

/// The number of values that `n` digits of base 32 can write.
pub open spec fn digit_range(n: nat) -> nat
    decreases n,
{
    if n == 0 {
        1
    } else {
        32 * digit_range((n - 1) as nat)
    }
}

/// The digits of Crockford's base 32 are in the order of their characters.
proof fn lemma_alphabet_ascends()
    ensures
        crockford_alphabet().len() == 32,
        forall|i: int, j: int|
            0 <= i < j < 32 ==> (crockford_alphabet()[i] as u32) < (crockford_alphabet()[j] as u32),
{
    reveal_strlit("0123456789ABCDEFGHJKMNPQRSTVWXYZ");
}

/// Of two numbers that `n` digits can write, the smaller has the text that
/// comes first.
proof fn lemma_crockford_ascends(a: nat, b: nat, n: nat)
    requires
        a < b < digit_range(n),
    ensures
        comes_before(crockford(a, n), crockford(b, n)),
    decreases n,
{
    if n > 0 {
        lemma_alphabet_ascends();
        let (ta, tb) = (crockford(a, n), crockford(b, n));
        let (ha, hb) = (crockford(a / 32, (n - 1) as nat), crockford(b / 32, (n - 1) as nat));
        lemma_crockford_len(a / 32, (n - 1) as nat);
        lemma_crockford_len(b / 32, (n - 1) as nat);
        assert(ta.take(n - 1) =~= ha);
        assert(tb.take(n - 1) =~= hb);
        if a / 32 < b / 32 {
            lemma_crockford_ascends(a / 32, b / 32, (n - 1) as nat);
            let k = choose|k: int|
                0 <= k < ha.len() && k < hb.len() && #[trigger] ha.take(k) == hb.take(k) && (
                ha[k] as u32) < (hb[k] as u32);
            assert(ta.take(k) =~= ha.take(k));
            assert(tb.take(k) =~= hb.take(k));
            assert(ta[k] == ha[k] && tb[k] == hb[k]);
        } else {
            assert(a / 32 == b / 32 && a % 32 < b % 32);
            assert(ta.take(n - 1) == tb.take(n - 1));
        }
    }
}

/// No text comes before itself, and of two texts at most one comes before
/// the other.
proof fn lemma_comes_before_is_strict(a: Seq<char>, b: Seq<char>)
    requires
        comes_before(a, b),
    ensures
        a != b,
        !comes_before(b, a),
{
    let k = choose|k: int|
        0 <= k < a.len() && k < b.len() && #[trigger] a.take(k) == b.take(k) && (a[k] as u32) < (
        b[k] as u32);
    if comes_before(b, a) {
        let m = choose|m: int|
            0 <= m < b.len() && m < a.len() && #[trigger] b.take(m) == a.take(m) && (b[m] as u32)
                < (a[m] as u32);
        if k < m {
            assert(b.take(m)[k] == a.take(m)[k]);
        } else if m < k {
            assert(a.take(k)[m] == b.take(k)[m]);
        }
    }
}

/// Identifiers sort as their texts do: one identifier is the smaller number
/// exactly when its text comes first in the order of a dictionary.
pub proof fn lemma_text_sorts_as_number(a: ULID, b: ULID)
    ensures
        a.0 < b.0 <==> comes_before(ULID::text_of(a.0), ULID::text_of(b.0)),
{
    assert(digit_range(26) > u128::MAX) by {
        reveal_with_fuel(digit_range, 27);
    }
    if a.0 < b.0 {
        lemma_crockford_ascends(a.0 as nat, b.0 as nat, 26);
    } else if b.0 < a.0 {
        lemma_crockford_ascends(b.0 as nat, a.0 as nat, 26);
        lemma_comes_before_is_strict(ULID::text_of(b.0), ULID::text_of(a.0));
    } else if comes_before(ULID::text_of(a.0), ULID::text_of(b.0)) {
        lemma_comes_before_is_strict(ULID::text_of(a.0), ULID::text_of(b.0));
    }
}

} // verus!

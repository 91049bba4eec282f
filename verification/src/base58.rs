//! Base 58: the text form of keys and nonces.
//!
//! The bytes are read as one big-endian number and written in base 58, highest
//! digit first, without leading zeros. Each zero byte in front of the number
//! is written as the digit of value zero, `1`.

use vstd::prelude::*;
use crate::ulid::be_value;

verus! {

/// The digits of base 58, in the order of their values.
pub open spec fn alphabet() -> Seq<char> {
    "123456789ABCDEFGHJKLMNPQRSTUVWXYZabcdefghijkmnopqrstuvwxyz"@
}

/// The digits of `n` in base `base`, highest first, without leading zeros.
/// Zero has no digits.
pub open spec fn digits_in(base: nat, n: nat) -> Seq<u8>
    decreases n,
    via digits_in_decreases
{
    if n == 0 || base < 2 {
        Seq::empty()
    } else {
        digits_in(base, n / base).push((n % base) as u8)
    }
}

#[via_fn]
proof fn digits_in_decreases(base: nat, n: nat) {
    if n != 0 && base >= 2 {
        assert(n / base < n) by (nonlinear_arith)
            requires
                n > 0,
                base >= 2,
        ;
    }
}

/// The digits of `n` in base 58, highest first, without leading zeros.
pub open spec fn digits(n: nat) -> Seq<u8> {
    digits_in(58, n)
}

/// Number of zero bytes in front of the first byte that is not zero.
pub open spec fn leading_zeros(bytes: Seq<u8>) -> nat
    decreases bytes.len(),
{
    if bytes.len() == 0 || bytes[0] != 0 {
        0
    } else {
        1 + leading_zeros(bytes.drop_first())
    }
}

/// The text that writes the digits `d`.
pub open spec fn symbols(d: Seq<u8>) -> Seq<char> {
    Seq::new(d.len(), |i: int| alphabet()[d[i] as int])
}

/// The text of `bytes` in base 58.
pub open spec fn encoding(bytes: Seq<u8>) -> Seq<char> {
    Seq::new(leading_zeros(bytes), |i: int| '1') + symbols(digits(be_value(bytes)))
}

/// The number that the digits `d` write in base `base`, lowest digit first,
/// with `top` as one more digit above them, of any size.
pub open spec fn le_value(base: nat, d: Seq<u8>, top: nat) -> nat
    decreases d.len(),
{
    if d.len() == 0 {
        top
    } else {
        d[0] as nat + base * le_value(base, d.drop_first(), top)
    }
}

/// The number that the digits `d` write in base `base`, highest digit first.
pub open spec fn he_value(base: nat, d: Seq<u8>) -> nat
    decreases d.len(),
{
    if d.len() == 0 {
        0
    } else {
        he_value(base, d.drop_last()) * base + d.last() as nat
    }
}

/// Digits of base `base`, lowest first, of which the highest is not zero.
pub open spec fn canonical(base: nat, d: Seq<u8>) -> bool {
    &&& forall|i: int| 0 <= i < d.len() ==> d[i] < base
    &&& d.len() > 0 ==> d.last() != 0
}

proof fn lemma_le_value_push(base: nat, d: Seq<u8>, x: u8, top: nat)
    ensures
        le_value(base, d.push(x), top) == le_value(base, d, x as nat + base * top),
    decreases d.len(),
{
    let longer = d.push(x);
    if d.len() == 0 {
        assert(longer.drop_first() =~= d);
        assert(longer[0] == x);
        assert(le_value(base, longer, top) == x as nat + base * le_value(
            base,
            longer.drop_first(),
            top,
        ));
    } else {
        assert(longer.drop_first() =~= d.drop_first().push(x));
        assert(longer[0] == d[0]);
        lemma_le_value_push(base, d.drop_first(), x, top);
        assert(le_value(base, longer, top) == d[0] as nat + base * le_value(
            base,
            longer.drop_first(),
            top,
        ));
    }
}

/// Read from the other end, the digits write the same number.
proof fn lemma_he_value_reverse(base: nat, d: Seq<u8>)
    ensures
        he_value(base, d) == le_value(base, d.reverse(), 0),
    decreases d.len(),
{
    if d.len() == 0 {
        assert(d.reverse() =~= Seq::<u8>::empty());
    } else {
        let rev = d.reverse();
        assert(rev[0] == d.last());
        assert(rev.drop_first() =~= d.drop_last().reverse());
        lemma_he_value_reverse(base, d.drop_last());
        assert(he_value(base, d.drop_last()) * base == base * he_value(base, d.drop_last()))
            by (nonlinear_arith);
    }
}

proof fn lemma_be_value_is_he_value(bytes: Seq<u8>)
    ensures
        be_value(bytes) == he_value(256, bytes),
    decreases bytes.len(),
{
    if bytes.len() > 0 {
        lemma_be_value_is_he_value(bytes.drop_last());
    }
}

proof fn lemma_canonical_positive(base: nat, d: Seq<u8>)
    requires
        canonical(base, d),
        d.len() > 0,
        base >= 2,
    ensures
        le_value(base, d, 0) > 0,
    decreases d.len(),
{
    if d.len() > 1 {
        assert(d.drop_first().last() == d.last());
        lemma_canonical_positive(base, d.drop_first());
        assert(base * le_value(base, d.drop_first(), 0) > 0) by (nonlinear_arith)
            requires
                base >= 2,
                le_value(base, d.drop_first(), 0) > 0,
        ;
    } else {
        assert(d.drop_first() =~= Seq::<u8>::empty());
        assert(le_value(base, d.drop_first(), 0) == 0);
        assert(base * 0 == 0);
    }
}

/// Canonical digits are the digits of their number, in the other order.
proof fn lemma_canonical_digits(base: nat, d: Seq<u8>)
    requires
        canonical(base, d),
        base >= 2,
    ensures
        digits_in(base, le_value(base, d, 0)) == d.reverse(),
    decreases d.len(),
{
    if d.len() == 0 {
        assert(d.reverse() =~= Seq::<u8>::empty());
    } else {
        let rest = d.drop_first();
        let n = le_value(base, d, 0);
        let high = le_value(base, rest, 0);
        if rest.len() > 0 {
            assert(rest.last() == d.last());
            lemma_canonical_positive(base, rest);
        } else {
            assert(high == 0);
        }
        lemma_canonical_positive(base, d);
        assert(n / base == high && n % base == d[0]) by (nonlinear_arith)
            requires
                n == d[0] as nat + base * high,
                d[0] < base,
        ;
        if rest.len() > 0 {
            lemma_canonical_digits(base, rest);
        } else {
            assert(rest.reverse() =~= Seq::<u8>::empty());
        }
        assert(digits_in(base, n) == digits_in(base, n / base).push((n % base) as u8));
        assert(rest.reverse().push(d[0]) =~= d.reverse());
    }
}

proof fn lemma_leading_zeros(bytes: Seq<u8>, k: int)
    requires
        0 <= k <= bytes.len(),
        forall|i: int| 0 <= i < k ==> bytes[i] == 0,
        k < bytes.len() ==> bytes[k] != 0,
    ensures
        leading_zeros(bytes) == k,
    decreases k,
{
    if k > 0 {
        lemma_leading_zeros(bytes.drop_first(), k - 1);
    }
}

/// Multiplies the number that `digits` write in base `base` by `factor` and
/// adds `addend`.
fn shift_in(digits: &mut Vec<u8>, base: u32, factor: u32, addend: u8)
    requires
        canonical(base as nat, old(digits)@),
        2 <= base <= 256,
        2 <= factor <= 256,
        addend < factor,
    ensures
        canonical(base as nat, final(digits)@),
        le_value(base as nat, final(digits)@, 0) == factor * le_value(
            base as nat,
            old(digits)@,
            0,
        ) + addend,
{
    let ghost before = digits@;
    let ghost b = base as nat;
    let ghost f = factor as nat;
    let len = digits.len();
    let mut carry: u32 = addend as u32;
    let mut j: usize = 0;
    proof {
        assert(before.take(0) =~= Seq::<u8>::empty());
        assert(before.skip(0) =~= before);
    }
    while j < len
        invariant
            j <= len,
            len == before.len(),
            digits@.len() == len,
            canonical(b, before),
            b == base,
            f == factor,
            2 <= base <= 256,
            2 <= factor <= 256,
            carry < factor,
            j > 0 ==> carry > 0 || digits@[j - 1] != 0 || before[j - 1] == 0,
            forall|i: int| 0 <= i < j ==> digits@[i] < base,
            digits@.skip(j as int) == before.skip(j as int),
            le_value(
                b,
                digits@.take(j as int),
                carry as nat + f * le_value(b, before.skip(j as int), 0),
            ) == f * le_value(b, before, 0) + addend,
        decreases len - j,
    {
        let ghost prior = digits@;
        let old_digit = digits[j];
        assert(old_digit == before[j as int]) by {
            assert(digits@.skip(j as int)[0] == before.skip(j as int)[0]);
        }
        assert(old_digit as u32 * factor <= 255 * 256) by (nonlinear_arith)
            requires
                old_digit <= 255,
                factor <= 256,
        ;
        let sum: u32 = carry + old_digit as u32 * factor;
        let digit: u8 = (sum % base) as u8;
        let next: u32 = sum / base;
        digits[j] = digit;
        proof {
            let tail = before.skip(j as int);
            let rest = le_value(b, before.skip(j as int + 1), 0);
            assert(tail.drop_first() =~= before.skip(j as int + 1));
            assert(le_value(b, tail, 0) == old_digit as nat + b * rest);
            assert(digits@.take(j as int + 1) =~= prior.take(j as int).push(digit));
            lemma_le_value_push(b, prior.take(j as int), digit, next as nat + f * rest);
            assert(digit as nat + b * next as nat == sum && next < factor && (old_digit > 0
                ==> sum > 0)) by (nonlinear_arith)
                requires
                    digit == sum % base,
                    next == sum / base,
                    b == base,
                    base >= 2,
                    sum == carry + old_digit * factor,
                    carry < factor,
                    old_digit < base,
                    factor >= 2,
            ;
            assert(digit as nat + b * (next as nat + f * rest) == carry as nat + f * (
            old_digit as nat + b * rest)) by (nonlinear_arith)
                requires
                    digit as nat + b * next as nat == sum,
                    sum == carry + old_digit * f,
            ;
            assert(digits@.skip(j as int + 1) =~= before.skip(j as int + 1));
            assert forall|i: int| 0 <= i < j + 1 implies digits@[i] < base by {
                if i < j {
                    assert(digits@[i] == prior[i]);
                }
            }
            if next == 0 {
                assert(b * 0 == 0);
                assert(digit == sum);
            }
        }
        carry = next;
        j = j + 1;
    }
    proof {
        assert(digits@.take(len as int) =~= digits@);
        assert(before.skip(len as int) =~= Seq::<u8>::empty());
        assert(f * 0 == 0);
    }
    while carry > 0
        invariant
            b == base,
            2 <= base <= 256,
            forall|i: int| 0 <= i < digits@.len() ==> digits@[i] < base,
            le_value(b, digits@, carry as nat) == f * le_value(b, before, 0) + addend,
            carry == 0 && digits@.len() > 0 ==> digits@.last() != 0,
        decreases carry,
    {
        let ghost prior = digits@;
        let digit: u8 = (carry % base) as u8;
        digits.push(digit);
        proof {
            lemma_le_value_push(b, prior, digit, (carry / base) as nat);
            assert(digit as nat + b * ((carry / base) as nat) == carry && carry / base < carry
                && (carry / base == 0 ==> digit == carry)) by (nonlinear_arith)
                requires
                    digit == carry % base,
                    b == base,
                    base >= 2,
                    carry > 0,
            ;
        }
        carry = carry / base;
    }
}

/// The text of `bytes` in base 58.
pub fn encode(bytes: &[u8]) -> (text: String)
    ensures
        text@ == encoding(bytes@),
{
    let total = bytes.len();
    let mut zeros: usize = 0;
    while zeros < total && bytes[zeros] == 0
        invariant
            zeros <= total,
            total == bytes@.len(),
            forall|i: int| 0 <= i < zeros ==> bytes@[i] == 0,
        decreases total - zeros,
    {
        zeros = zeros + 1;
    }
    proof {
        lemma_leading_zeros(bytes@, zeros as int);
    }
    let mut low_first: Vec<u8> = Vec::new();
    let mut i: usize = 0;
    proof {
        assert(bytes@.take(0) =~= Seq::<u8>::empty());
    }
    while i < total
        invariant
            i <= total,
            total == bytes@.len(),
            canonical(58, low_first@),
            le_value(58, low_first@, 0) == be_value(bytes@.take(i as int)),
        decreases total - i,
    {
        proof {
            let next = bytes@.take(i as int + 1);
            assert(next.drop_last() =~= bytes@.take(i as int));
            assert(next.last() == bytes@[i as int]);
        }
        shift_in(&mut low_first, 58, 256, bytes[i]);
        i = i + 1;
    }
    proof {
        assert(bytes@.take(total as int) =~= bytes@);
        lemma_canonical_digits(58, low_first@);
    }
    let ghost high_first = digits(be_value(bytes@));
    let count = low_first.len();
    let mut text = String::new();
    let mut k: usize = 0;
    while k < zeros
        invariant
            k <= zeros,
            text@ == Seq::new(k as nat, |i: int| '1'),
        decreases zeros - k,
    {
        text.push('1');
        assert(text@ =~= Seq::new((k + 1) as nat, |i: int| '1'));
        k = k + 1;
    }
    let table = "123456789ABCDEFGHJKLMNPQRSTUVWXYZabcdefghijkmnopqrstuvwxyz";
    proof {
        reveal_strlit("123456789ABCDEFGHJKLMNPQRSTUVWXYZabcdefghijkmnopqrstuvwxyz");
    }
    let ghost ones = text@;
    let mut m: usize = 0;
    assert(text@ =~= ones + symbols(high_first.take(0)));
    while m < count
        invariant
            m <= count,
            count == low_first@.len(),
            canonical(58, low_first@),
            high_first == low_first@.reverse(),
            table@ == alphabet(),
            table@.len() == 58,
            text@ == ones + symbols(high_first.take(m as int)),
        decreases count - m,
    {
        let digit = low_first[count - 1 - m];
        assert(digit == high_first[m as int]);
        let symbol = table.get_char(digit as usize);
        text.push(symbol);
        assert(text@ =~= ones + symbols(high_first.take(m as int + 1)));
        m = m + 1;
    }
    assert(high_first.take(count as int) =~= high_first);
    text
}

/// Whether `c` is the digit of base 58 with the value `d`.
pub open spec fn is_digit(c: char, d: int) -> bool {
    0 <= d < 58 && alphabet()[d] == c
}

/// The digits of a number are digits of base 58, the highest is not zero,
/// and they write the number.
proof fn lemma_digits_canonical(n: nat)
    ensures
        forall|i: int| 0 <= i < digits(n).len() ==> digits(n)[i] < 58,
        n > 0 ==> digits(n).len() > 0 && digits(n)[0] != 0,
        he_value(58, digits(n)) == n,
    decreases n,
{
    if n > 0 {
        lemma_digits_canonical(n / 58);
        let high = digits(n / 58);
        assert(digits(n) == high.push((n % 58) as u8));
        assert(digits(n).drop_last() =~= high);
        assert forall|i: int| 0 <= i < digits(n).len() implies digits(n)[i] < 58 by {
            if i < high.len() {
                assert(digits(n)[i] == high[i]);
            }
        }
        if n / 58 > 0 {
            assert(digits(n)[0] == high[0]);
        }
    }
}

/// Every character of a text in base 58 is a digit of base 58.
proof fn lemma_encoding_symbols(bytes: Seq<u8>, i: int)
    requires
        0 <= i < encoding(bytes).len(),
    ensures
        exists|d: int| is_digit(encoding(bytes)[i], d),
{
    reveal_strlit("123456789ABCDEFGHJKLMNPQRSTUVWXYZabcdefghijkmnopqrstuvwxyz");
    let zeros = leading_zeros(bytes);
    let d = digits(be_value(bytes));
    lemma_digits_canonical(be_value(bytes));
    if i < zeros {
        assert(is_digit(encoding(bytes)[i], 0));
    } else {
        assert(encoding(bytes)[i] == symbols(d)[i - zeros]);
        assert(is_digit(encoding(bytes)[i], d[i - zeros] as int));
    }
}

/// Zero bytes in front add nothing to the number.
proof fn lemma_he_value_leading_zeros(base: nat, zeros: Seq<u8>, d: Seq<u8>)
    requires
        forall|i: int| 0 <= i < zeros.len() ==> zeros[i] == 0,
    ensures
        he_value(base, zeros + d) == he_value(base, d),
    decreases zeros.len() + d.len(),
{
    let all = zeros + d;
    if d.len() > 0 {
        assert(all.drop_last() =~= zeros + d.drop_last());
        assert(all.last() == d.last());
        lemma_he_value_leading_zeros(base, zeros, d.drop_last());
    } else if zeros.len() > 0 {
        assert(all =~= zeros);
        assert(zeros.drop_last() + Seq::<u8>::empty() =~= zeros.drop_last());
        lemma_he_value_leading_zeros(base, zeros.drop_last(), Seq::<u8>::empty());
        assert(he_value(base, Seq::<u8>::empty()) == 0);
        assert(0 * base == 0);
    } else {
        assert(all =~= d);
    }
}

/// The value of the digit `c`, if `c` is a digit of base 58.
fn digit_value(c: char) -> (value: Option<u8>)
    ensures
        value matches Some(d) ==> is_digit(c, d as int),
        value is None ==> forall|d: int| !is_digit(c, d),
{
    let table = "123456789ABCDEFGHJKLMNPQRSTUVWXYZabcdefghijkmnopqrstuvwxyz";
    proof {
        reveal_strlit("123456789ABCDEFGHJKLMNPQRSTUVWXYZabcdefghijkmnopqrstuvwxyz");
    }
    let mut j: usize = 0;
    while j < 58
        invariant
            j <= 58,
            table@ == alphabet(),
            table@.len() == 58,
            forall|d: int| 0 <= d < j ==> alphabet()[d] != c,
        decreases 58 - j,
    {
        if table.get_char(j) == c {
            return Some(j as u8);
        }
        j = j + 1;
    }
    None
}

/// The bytes that `text` writes in base 58, if it writes any.
///
/// Every text that is the encoding of some bytes is decoded, and the bytes
/// that come out are bytes of which `text` is the encoding. A text with a
/// character that is no digit of base 58 writes no bytes.
pub fn decode(text: &str) -> (bytes: Option<Vec<u8>>)
    ensures
        match bytes {
            Some(b) => encoding(b@) == text@,
            None => forall|b: Seq<u8>| encoding(b) != text@,
        },
{
    let total = text.unicode_len();
    let mut values: Vec<u8> = Vec::new();
    let mut i: usize = 0;
    while i < total
        invariant
            i <= total,
            total == text@.len(),
            values@.len() == i,
            forall|k: int| 0 <= k < i ==> is_digit(text@[k], #[trigger] values@[k] as int),
        decreases total - i,
    {
        match digit_value(text.get_char(i)) {
            Some(d) => values.push(d),
            None => {
                proof {
                    assert forall|b: Seq<u8>| encoding(b) != text@ by {
                        if encoding(b) == text@ {
                            lemma_encoding_symbols(b, i as int);
                        }
                    }
                }
                return None;
            },
        }
        i = i + 1;
    }
    let mut zeros: usize = 0;
    while zeros < total && values[zeros] == 0
        invariant
            zeros <= total,
            total == values@.len(),
            forall|k: int| 0 <= k < zeros ==> values@[k] == 0,
        decreases total - zeros,
    {
        zeros = zeros + 1;
    }
    let ghost tail = values@.skip(zeros as int);
    let mut low_first: Vec<u8> = Vec::new();
    let mut j: usize = zeros;
    proof {
        assert(values@.subrange(zeros as int, zeros as int) =~= Seq::<u8>::empty());
    }
    while j < total
        invariant
            zeros <= j <= total,
            total == values@.len(),
            forall|k: int| 0 <= k < total ==> values@[k] < 58,
            canonical(256, low_first@),
            le_value(256, low_first@, 0) == he_value(58, values@.subrange(zeros as int, j as int)),
        decreases total - j,
    {
        proof {
            let next = values@.subrange(zeros as int, j as int + 1);
            assert(next.drop_last() =~= values@.subrange(zeros as int, j as int));
            assert(next.last() == values@[j as int]);
            assert(he_value(58, values@.subrange(zeros as int, j as int)) * 58 == 58 * he_value(
                58,
                values@.subrange(zeros as int, j as int),
            )) by (nonlinear_arith);
        }
        shift_in(&mut low_first, 256, 58, values[j]);
        j = j + 1;
    }
    let count = low_first.len();
    let mut out: Vec<u8> = Vec::new();
    let mut k: usize = 0;
    while k < zeros
        invariant
            k <= zeros,
            out@ == Seq::new(k as nat, |i: int| 0u8),
        decreases zeros - k,
    {
        out.push(0u8);
        assert(out@ =~= Seq::new((k + 1) as nat, |i: int| 0u8));
        k = k + 1;
    }
    let ghost front = out@;
    let mut m: usize = 0;
    assert(out@ =~= front + low_first@.reverse().take(0));
    while m < count
        invariant
            m <= count,
            count == low_first@.len(),
            out@ == front + low_first@.reverse().take(m as int),
        decreases count - m,
    {
        out.push(low_first[count - 1 - m]);
        assert(out@ =~= front + low_first@.reverse().take(m as int + 1));
        m = m + 1;
    }
    proof {
        reveal_strlit("123456789ABCDEFGHJKLMNPQRSTUVWXYZabcdefghijkmnopqrstuvwxyz");
        let high_first = low_first@.reverse();
        assert(high_first.take(count as int) =~= high_first);
        assert(values@.subrange(zeros as int, total as int) =~= tail);
        // the zero bytes in front
        if count > 0 {
            assert(out@[zeros as int] == high_first[0]);
        }
        lemma_leading_zeros(out@, zeros as int);
        // the number
        lemma_be_value_is_he_value(out@);
        lemma_he_value_leading_zeros(256, front, high_first);
        lemma_he_value_reverse(256, high_first);
        assert(high_first.reverse() =~= low_first@);
        assert(be_value(out@) == he_value(58, tail));
        // its digits
        lemma_he_value_reverse(58, tail);
        assert(canonical(58, tail.reverse())) by {
            if tail.len() > 0 {
                assert(tail.reverse().last() == tail[0]);
                assert(tail[0] == values@[zeros as int]);
            }
        }
        lemma_canonical_digits(58, tail.reverse());
        assert(tail.reverse().reverse() =~= tail);
        assert(digits(be_value(out@)) == tail);
        // the text
        assert(encoding(out@) =~= text@) by {
            assert(encoding(out@).len() == text@.len());
            assert forall|p: int| 0 <= p < text@.len() implies encoding(out@)[p] == text@[p] by {
                assert(is_digit(text@[p], values@[p] as int));
                if p >= zeros {
                    assert(tail[p - zeros] == values@[p]);
                    assert(encoding(out@)[p] == symbols(tail)[p - zeros]);
                }
            }
        }
    }
    Some(out)
}

/// No two digits of base 58 are written alike.
proof fn lemma_alphabet_distinct()
    ensures
        forall|i: int, j: int| 0 <= i < j < 58 ==> alphabet()[i] != alphabet()[j],
{
    reveal_strlit("123456789ABCDEFGHJKLMNPQRSTUVWXYZabcdefghijkmnopqrstuvwxyz");
}

/// In front of the place that `leading_zeros` names there are zeros only,
/// and at that place there is none.
proof fn lemma_leading_zeros_split(bytes: Seq<u8>)
    ensures
        leading_zeros(bytes) <= bytes.len(),
        forall|i: int| 0 <= i < leading_zeros(bytes) ==> bytes[i] == 0,
        leading_zeros(bytes) < bytes.len() ==> bytes[leading_zeros(bytes) as int] != 0,
    decreases bytes.len(),
{
    if bytes.len() > 0 && bytes[0] == 0 {
        let rest = bytes.drop_first();
        lemma_leading_zeros_split(rest);
        assert forall|i: int| 0 <= i < leading_zeros(bytes) implies bytes[i] == 0 by {
            if i > 0 {
                assert(bytes[i] == rest[i - 1]);
            }
        }
        if leading_zeros(bytes) < bytes.len() {
            assert(bytes[leading_zeros(bytes) as int] == rest[leading_zeros(rest) as int]);
        }
    }
}

/// Bytes are told by the number of zeros in front of them and the number
/// that they write.
proof fn lemma_bytes_are_told(a: Seq<u8>, b: Seq<u8>)
    requires
        leading_zeros(a) == leading_zeros(b),
        be_value(a) == be_value(b),
    ensures
        a == b,
{
    let z = leading_zeros(a) as int;
    lemma_leading_zeros_split(a);
    lemma_leading_zeros_split(b);
    let (ta, tb) = (a.skip(z), b.skip(z));
    assert(a =~= a.take(z) + ta);
    assert(b =~= b.take(z) + tb);
    lemma_be_value_is_he_value(a);
    lemma_be_value_is_he_value(b);
    lemma_he_value_leading_zeros(256, a.take(z), ta);
    lemma_he_value_leading_zeros(256, b.take(z), tb);
    lemma_he_value_reverse(256, ta);
    lemma_he_value_reverse(256, tb);
    assert(canonical(256, ta.reverse())) by {
        if ta.len() > 0 {
            assert(ta.reverse().last() == ta[0]);
            assert(ta[0] == a[z]);
        }
    }
    assert(canonical(256, tb.reverse())) by {
        if tb.len() > 0 {
            assert(tb.reverse().last() == tb[0]);
            assert(tb[0] == b[z]);
        }
    }
    lemma_canonical_digits(256, ta.reverse());
    lemma_canonical_digits(256, tb.reverse());
    assert(ta.reverse().reverse() =~= ta);
    assert(tb.reverse().reverse() =~= tb);
    assert(ta == tb);
    assert(a.take(z) =~= b.take(z));
}

/// Different bytes have different texts: two byte strings with the same text
/// in base 58 are the same bytes.
pub proof fn lemma_encoding_is_injective(a: Seq<u8>, b: Seq<u8>)
    requires
        encoding(a) == encoding(b),
    ensures
        a == b,
{
    reveal_strlit("123456789ABCDEFGHJKLMNPQRSTUVWXYZabcdefghijkmnopqrstuvwxyz");
    lemma_alphabet_distinct();
    let (za, zb) = (leading_zeros(a) as int, leading_zeros(b) as int);
    let (da, db) = (digits(be_value(a)), digits(be_value(b)));
    lemma_digits_canonical(be_value(a));
    lemma_digits_canonical(be_value(b));
    assert(za + da.len() == zb + db.len()) by {
        assert(encoding(a).len() == za + da.len());
        assert(encoding(b).len() == zb + db.len());
    }
    if za < zb {
        assert(encoding(a)[za] == symbols(da)[0]);
        assert(encoding(b)[za] == '1');
        assert(da[0] != 0) by {
            if be_value(a) == 0 {
                assert(da.len() == 0);
            }
        }
        assert(false);
    }
    if zb < za {
        assert(encoding(b)[zb] == symbols(db)[0]);
        assert(encoding(a)[zb] == '1');
        assert(db[0] != 0) by {
            if be_value(b) == 0 {
                assert(db.len() == 0);
            }
        }
        assert(false);
    }
    assert(da =~= db) by {
        assert forall|i: int| 0 <= i < da.len() implies da[i] == db[i] by {
            assert(encoding(a)[za + i] == symbols(da)[i]);
            assert(encoding(b)[zb + i] == symbols(db)[i]);
        }
    }
    lemma_bytes_are_told(a, b);
}

/// Round trip: `decode` gives back the bytes that `encode` was given. Of
/// the text of `bytes`, whatever meets the contract of `decode` is `bytes`.
pub proof fn lemma_decode_encode(bytes: Seq<u8>, decoded: Option<Seq<u8>>)
    requires
        match decoded {
            Some(b) => encoding(b) == encoding(bytes),
            None => forall|b: Seq<u8>| #[trigger] encoding(b) != encoding(bytes),
        },
    ensures
        decoded == Some(bytes),
{
    match decoded {
        Some(b) => lemma_encoding_is_injective(b, bytes),
        None => {
            let text = encoding(bytes);
            assert(forall|b: Seq<u8>| #[trigger] encoding(b) != text);
            assert(encoding(bytes) == text);
        },
    }
}

} // verus!

//! Helpers on byte strings.

use vstd::prelude::*;

verus! {

/// Whether two byte strings are equal.
pub fn bytes_eq(a: &[u8], b: &[u8]) -> (equal: bool)
    ensures
        equal == (a@ == b@),
{
    if a.len() != b.len() {
        return false;
    }
    let mut i: usize = 0;
    while i < a.len()
        invariant
            i <= a.len(),
            a.len() == b.len(),
            forall|j: int| 0 <= j < i ==> a@[j] == b@[j],
        decreases a.len() - i,
    {
        if a[i] != b[i] {
            return false;
        }
        i = i + 1;
    }
    assert(a@ =~= b@);
    true
}

/// Appends `bytes` to `out`.
pub fn push_bytes(out: &mut Vec<u8>, bytes: &[u8])
    ensures
        final(out)@ == old(out)@ + bytes@,
{
    let mut i: usize = 0;
    while i < bytes.len()
        invariant
            i <= bytes.len(),
            out@ == old(out)@ + bytes@.take(i as int),
        decreases bytes.len() - i,
    {
        out.push(bytes[i]);
        assert(bytes@.take(i as int + 1) =~= bytes@.take(i as int).push(bytes@[i as int]));
        assert(out@ =~= old(out)@ + bytes@.take(i as int + 1));
        i = i + 1;
    }
    assert(bytes@.take(bytes@.len() as int) =~= bytes@);
}

/// A vector that holds `bytes`.
pub fn to_vec(bytes: &[u8]) -> (out: Vec<u8>)
    ensures
        out@ == bytes@,
{
    let mut out: Vec<u8> = Vec::new();
    push_bytes(&mut out, bytes);
    assert(Seq::<u8>::empty() + bytes@ =~= bytes@);
    out
}

/// The 32 bytes of `bytes` that start at `at`.
pub fn array32(bytes: &[u8], at: usize) -> (out: [u8; 32])
    requires
        at + 32 <= bytes@.len(),
    ensures
        out@ == bytes@.subrange(at as int, at + 32),
{
    let n = bytes.len();
    let mut out = [0u8; 32];
    let mut i: usize = 0;
    while i < 32
        invariant
            i <= 32,
            at + 32 <= bytes@.len() == n,
            forall|j: int| 0 <= j < i ==> out@[j] == bytes@[at + j],
        decreases 32 - i,
    {
        out[i] = bytes[at + i];
        i = i + 1;
    }
    assert(out@ =~= bytes@.subrange(at as int, at + 32));
    out
}

/// The 24 bytes of `bytes` that start at `at`.
pub fn array24(bytes: &[u8], at: usize) -> (out: [u8; 24])
    requires
        at + 24 <= bytes@.len(),
    ensures
        out@ == bytes@.subrange(at as int, at + 24),
{
    let n = bytes.len();
    let mut out = [0u8; 24];
    let mut i: usize = 0;
    while i < 24
        invariant
            i <= 24,
            at + 24 <= bytes@.len() == n,
            forall|j: int| 0 <= j < i ==> out@[j] == bytes@[at + j],
        decreases 24 - i,
    {
        out[i] = bytes[at + i];
        i = i + 1;
    }
    assert(out@ =~= bytes@.subrange(at as int, at + 24));
    out
}

/// A vector that holds the `len` bytes of `bytes` that start at `at`.
pub fn sub_vec(bytes: &[u8], at: usize, len: usize) -> (out: Vec<u8>)
    requires
        at + len <= bytes@.len(),
    ensures
        out@ == bytes@.subrange(at as int, at + len),
{
    let n = bytes.len();
    let mut out: Vec<u8> = Vec::new();
    let mut i: usize = 0;
    while i < len
        invariant
            i <= len,
            at + len <= bytes@.len() == n,
            out@ == bytes@.subrange(at as int, at + i),
        decreases len - i,
    {
        out.push(bytes[at + i]);
        assert(out@ =~= bytes@.subrange(at as int, at + i + 1));
        i = i + 1;
    }
    out
}

} // verus!

//! Big-endian byte-order helpers shared by the codecs.
//!
//! Every multi-byte field of the FLV container, of AMF0 and of the
//! AVCDecoderConfigurationRecord is big-endian.  The spec functions here give
//! the mathematical reading and writing of such fields, the exec functions
//! compute them, and the lemmas tie the two directions together.
use vstd::prelude::*;

verus! {

/// The big-endian 16-bit value at `i`.
pub open spec fn be16(s: Seq<u8>, i: int) -> int {
    s[i] * 0x100 + s[i + 1]
}

/// The big-endian 24-bit value at `i`.
pub open spec fn be24(s: Seq<u8>, i: int) -> int {
    s[i] * 0x10000 + s[i + 1] * 0x100 + s[i + 2]
}

/// The big-endian 32-bit value at `i`.
pub open spec fn be32(s: Seq<u8>, i: int) -> int {
    s[i] * 0x1000000 + s[i + 1] * 0x10000 + s[i + 2] * 0x100 + s[i + 3]
}

/// The big-endian 64-bit value at `i`.
pub open spec fn be64(s: Seq<u8>, i: int) -> int {
    s[i] * 0x100000000000000 + s[i + 1] * 0x1000000000000 + s[i + 2] * 0x10000000000 + s[i + 3]
        * 0x100000000 + s[i + 4] * 0x1000000 + s[i + 5] * 0x10000 + s[i + 6] * 0x100 + s[i + 7]
}

/// A 24-bit value reinterpreted as a signed number (two's complement).
pub open spec fn sign_extend24(v: int) -> int {
    if v >= 0x800000 {
        v - 0x1000000
    } else {
        v
    }
}

/// The two big-endian bytes of a 16-bit value.
pub open spec fn u16_be_bytes(v: u16) -> Seq<u8> {
    seq![(v / 0x100) as u8, (v % 0x100) as u8]
}

/// The three big-endian bytes of the low 24 bits of a value.
pub open spec fn u24_be_bytes(v: u32) -> Seq<u8> {
    seq![((v / 0x10000) % 0x100) as u8, ((v / 0x100) % 0x100) as u8, (v % 0x100) as u8]
}

/// The four big-endian bytes of a 32-bit value.
pub open spec fn u32_be_bytes(v: u32) -> Seq<u8> {
    seq![
        (v / 0x1000000) as u8,
        ((v / 0x10000) % 0x100) as u8,
        ((v / 0x100) % 0x100) as u8,
        (v % 0x100) as u8,
    ]
}

/// The eight big-endian bytes of a 64-bit value.
pub open spec fn u64_be_bytes(v: u64) -> Seq<u8> {
    seq![
        (v / 0x100000000000000) as u8,
        ((v / 0x1000000000000) % 0x100) as u8,
        ((v / 0x10000000000) % 0x100) as u8,
        ((v / 0x100000000) % 0x100) as u8,
        ((v / 0x1000000) % 0x100) as u8,
        ((v / 0x10000) % 0x100) as u8,
        ((v / 0x100) % 0x100) as u8,
        (v % 0x100) as u8,
    ]
}

/// Reading back the two bytes of a 16-bit value gives the value.
pub proof fn lemma_u16_be_roundtrip(v: u16)
    ensures
        be16(u16_be_bytes(v), 0) == v,
{
    assert(v == (v / 0x100) * 0x100 + v % 0x100) by (nonlinear_arith);
}

/// Reading back the three bytes of a 24-bit value gives the value.
pub proof fn lemma_u24_be_roundtrip(v: u32)
    requires
        v < 0x1000000,
    ensures
        be24(u24_be_bytes(v), 0) == v,
{
    assert((v / 0x10000) % 0x100 == v / 0x10000) by (nonlinear_arith)
        requires
            v < 0x1000000,
    ;
    assert(v == (v / 0x10000) * 0x10000 + ((v / 0x100) % 0x100) * 0x100 + v % 0x100)
        by (nonlinear_arith);
}

/// Reading back the four bytes of a 32-bit value gives the value.
pub proof fn lemma_u32_be_roundtrip(v: u32)
    ensures
        be32(u32_be_bytes(v), 0) == v,
{
    assert(v == (v / 0x1000000) * 0x1000000 + ((v / 0x10000) % 0x100) * 0x10000 + ((v / 0x100)
        % 0x100) * 0x100 + v % 0x100) by (nonlinear_arith);
}

/// Reading back the eight bytes of a 64-bit value gives the value.
pub proof fn lemma_u64_be_roundtrip(v: u64)
    ensures
        be64(u64_be_bytes(v), 0) == v,
{
    let x = v as int;
    let v1 = x / 0x100;
    let v2 = v1 / 0x100;
    let v3 = v2 / 0x100;
    let v4 = v3 / 0x100;
    let v5 = v4 / 0x100;
    let v6 = v5 / 0x100;
    let v7 = v6 / 0x100;
    vstd::arithmetic::div_mod::lemma_div_denominator(x, 0x100, 0x100);
    vstd::arithmetic::div_mod::lemma_div_denominator(x, 0x10000, 0x100);
    vstd::arithmetic::div_mod::lemma_div_denominator(x, 0x1000000, 0x100);
    vstd::arithmetic::div_mod::lemma_div_denominator(x, 0x100000000, 0x100);
    vstd::arithmetic::div_mod::lemma_div_denominator(x, 0x10000000000, 0x100);
    vstd::arithmetic::div_mod::lemma_div_denominator(x, 0x1000000000000, 0x100);
    assert(x / 0x10000 == v2 && x / 0x1000000 == v3 && x / 0x100000000 == v4 && x / 0x10000000000
        == v5 && x / 0x1000000000000 == v6 && x / 0x100000000000000 == v7);
    vstd::arithmetic::div_mod::lemma_fundamental_div_mod(x, 0x100);
    vstd::arithmetic::div_mod::lemma_fundamental_div_mod(v1, 0x100);
    vstd::arithmetic::div_mod::lemma_fundamental_div_mod(v2, 0x100);
    vstd::arithmetic::div_mod::lemma_fundamental_div_mod(v3, 0x100);
    vstd::arithmetic::div_mod::lemma_fundamental_div_mod(v4, 0x100);
    vstd::arithmetic::div_mod::lemma_fundamental_div_mod(v5, 0x100);
    vstd::arithmetic::div_mod::lemma_fundamental_div_mod(v6, 0x100);
    assert(v7 == x / 0x100000000000000);
    vstd::arithmetic::div_mod::lemma_div_is_ordered(x, 0xffffffffffffffff, 0x100000000000000);
}

/// The big-endian 16-bit field at `i`.
pub fn read_be_u16(b: &[u8], i: usize) -> (r: u16)
    requires
        i + 2 <= b@.len(),
    ensures
        r == be16(b@, i as int),
{
    (b[i] as u16) * 0x100 + (b[i + 1] as u16)
}

/// The big-endian 24-bit field at `i`.
pub fn read_be_u24(b: &[u8], i: usize) -> (r: u32)
    requires
        i + 3 <= b@.len(),
    ensures
        r == be24(b@, i as int),
        r < 0x1000000,
{
    (b[i] as u32) * 0x10000 + (b[i + 1] as u32) * 0x100 + (b[i + 2] as u32)
}

/// The big-endian 32-bit field at `i`.
pub fn read_be_u32(b: &[u8], i: usize) -> (r: u32)
    requires
        i + 4 <= b@.len(),
    ensures
        r == be32(b@, i as int),
{
    (b[i] as u32) * 0x1000000 + (b[i + 1] as u32) * 0x10000 + (b[i + 2] as u32) * 0x100 + (b[i + 3]
        as u32)
}

/// The big-endian 64-bit field at `i`.
pub fn read_be_u64(b: &[u8], i: usize) -> (r: u64)
    requires
        i + 8 <= b@.len(),
    ensures
        r == be64(b@, i as int),
{
    (b[i] as u64) * 0x100000000000000 + (b[i + 1] as u64) * 0x1000000000000 + (b[i + 2] as u64)
        * 0x10000000000 + (b[i + 3] as u64) * 0x100000000 + (b[i + 4] as u64) * 0x1000000 + (b[i
        + 5] as u64) * 0x10000 + (b[i + 6] as u64) * 0x100 + (b[i + 7] as u64)
}

/// Appends the two big-endian bytes of a 16-bit value.
pub fn push_be_u16(out: &mut Vec<u8>, v: u16)
    ensures
        final(out)@ == old(out)@ + u16_be_bytes(v),
{
    out.push((v / 0x100) as u8);
    out.push((v % 0x100) as u8);
    assert(out@ =~= old(out)@ + u16_be_bytes(v));
}

/// Appends the three big-endian bytes of the low 24 bits of a value.
pub fn push_be_u24(out: &mut Vec<u8>, v: u32)
    ensures
        final(out)@ == old(out)@ + u24_be_bytes(v),
{
    out.push(((v / 0x10000) % 0x100) as u8);
    out.push(((v / 0x100) % 0x100) as u8);
    out.push((v % 0x100) as u8);
    assert(out@ =~= old(out)@ + u24_be_bytes(v));
}

/// Appends the four big-endian bytes of a 32-bit value.
pub fn push_be_u32(out: &mut Vec<u8>, v: u32)
    ensures
        final(out)@ == old(out)@ + u32_be_bytes(v),
{
    out.push((v / 0x1000000) as u8);
    out.push(((v / 0x10000) % 0x100) as u8);
    out.push(((v / 0x100) % 0x100) as u8);
    out.push((v % 0x100) as u8);
    assert(out@ =~= old(out)@ + u32_be_bytes(v));
}

/// Appends the eight big-endian bytes of a 64-bit value.
pub fn push_be_u64(out: &mut Vec<u8>, v: u64)
    ensures
        final(out)@ == old(out)@ + u64_be_bytes(v),
{
    out.push((v / 0x100000000000000) as u8);
    out.push(((v / 0x1000000000000) % 0x100) as u8);
    out.push(((v / 0x10000000000) % 0x100) as u8);
    out.push(((v / 0x100000000) % 0x100) as u8);
    out.push(((v / 0x1000000) % 0x100) as u8);
    out.push(((v / 0x10000) % 0x100) as u8);
    out.push(((v / 0x100) % 0x100) as u8);
    out.push((v % 0x100) as u8);
    assert(out@ =~= old(out)@ + u64_be_bytes(v));
}

/// Appends a range of a byte slice.
pub fn push_bytes(out: &mut Vec<u8>, src: &[u8], from: usize, to: usize)
    requires
        from <= to <= src@.len(),
    ensures
        final(out)@ == old(out)@ + src@.subrange(from as int, to as int),
{
    let mut i: usize = from;
    while i < to
        invariant
            from <= i <= to <= src@.len(),
            out@ == old(out)@ + src@.subrange(from as int, i as int),
        decreases to - i,
    {
        out.push(src[i]);
        assert(out@ =~= old(out)@ + src@.subrange(from as int, i + 1));
        i = i + 1;
    }
}

/// A fresh copy of a byte slice.
pub fn copy_bytes(src: &[u8]) -> (r: Vec<u8>)
    ensures
        r@ == src@,
{
    let mut out: Vec<u8> = Vec::new();
    push_bytes(&mut out, src, 0, src.len());
    assert(out@ =~= src@);
    out
}

/// Whether two byte slices hold the same bytes.
pub fn bytes_eq(a: &[u8], b: &[u8]) -> (r: bool)
    ensures
        r == (a@ == b@),
{
    if a.len() != b.len() {
        assert(a@ != b@);
        return false;
    }
    let n: usize = a.len();
    let mut i: usize = 0;
    while i < n
        invariant
            0 <= i <= n,
            n == a@.len() == b@.len(),
            forall|j: int| 0 <= j < i ==> a@[j] == b@[j],
        decreases n - i,
    {
        if a[i] != b[i] {
            return false;
        }
        i = i + 1;
    }
    assert(a@ =~= b@);
    true
}

/// Whether a byte sequence is valid UTF-8.  Named, not written out: the
/// definition lives in the UTF-8 validator of the standard library.
pub uninterp spec fn utf8_ok(s: Seq<u8>) -> bool;

/// Relies on str::from_utf8: returns Ok exactly when the bytes are valid
/// UTF-8, and an empty byte slice always is.
#[verifier::external_body]
pub fn check_utf8(b: &[u8]) -> (r: bool)
    ensures
        r == utf8_ok(b@),
        b@.len() == 0 ==> r,
{
    core::str::from_utf8(b).is_ok()
}

} // verus!

//! Big-endian integers and byte runs read from the front of a byte slice,
//! which is then advanced past what was read (and left alone on failure).
use vstd::prelude::*;
use byteorder::BigEndian;
use byteorder::ByteOrder;
use crate::error::MrtError;

verus! {

/// The big-endian 16-bit value of the two bytes of `s` at `i`.
pub open spec fn be16(s: Seq<u8>, i: int) -> int {
    s[i] * 256 + s[i + 1]
}

/// The big-endian 32-bit value of the four bytes of `s` at `i`.
pub open spec fn be32(s: Seq<u8>, i: int) -> int {
    s[i] * 16777216 + s[i + 1] * 65536 + s[i + 2] * 256 + s[i + 3]
}

/// `new` is what is left of `old` after some bytes were taken from its front.
pub open spec fn advanced(old: Seq<u8>, new: Seq<u8>) -> bool {
    new.len() <= old.len() && new == old.skip(old.len() - new.len())
}

/// A decoding step as a mathematical function: the value decoded from the
/// front of the input and the bytes left after it, or the error.
pub type Decoded<V> = Result<(V, Seq<u8>), MrtError>;

/// An executable decoder that returned `r` and left `new` of the input `old`
/// did what `spec` says: on success it returned the value and left exactly
/// the rest; on failure it returned the error and left the input as it was.
pub open spec fn decodes<V>(r: Result<V, MrtError>, old: Seq<u8>, new: Seq<u8>, spec: Decoded<V>) -> bool {
    match spec {
        Ok((v, rest)) => r == Ok::<V, MrtError>(v) && new == rest,
        Err(e) => r == Err::<V, MrtError>(e) && new == old,
    }
}

/// As [`decodes`], but a failure may have consumed some of the input. The
/// steps inside a decoder meet this; the decoder puts the input back.
pub open spec fn decodes_advancing<V>(r: Result<V, MrtError>, old: Seq<u8>, new: Seq<u8>, spec: Decoded<V>) -> bool {
    match spec {
        Ok((v, rest)) => r == Ok::<V, MrtError>(v) && new == rest,
        Err(e) => r == Err::<V, MrtError>(e) && advanced(old, new),
    }
}

/// Decoding is deterministic: two runs that meet the same mathematical
/// decoder on the same input return the same result and leave the same
/// input, on success and on failure alike.
pub proof fn law_decodes_deterministic<V>(
    r1: Result<V, MrtError>,
    new1: Seq<u8>,
    r2: Result<V, MrtError>,
    new2: Seq<u8>,
    old: Seq<u8>,
    spec: Decoded<V>,
)
    requires
        decodes(r1, old, new1, spec),
        decodes(r2, old, new2, spec),
    ensures
        r1 == r2,
        new1 == new2,
{
}

/// The view of a decoder's result.
pub open spec fn res_view<T: View>(r: Result<T, MrtError>) -> Result<T::V, MrtError> {
    match r {
        Ok(v) => Ok(v@),
        Err(e) => Err(e),
    }
}

/// One byte.
pub open spec fn take_u8(s: Seq<u8>) -> Decoded<u8> {
    if s.len() < 1 { Err(MrtError::UnexpectedEof) } else { Ok((s[0], s.skip(1))) }
}

/// A big-endian `u16`.
pub open spec fn take_u16(s: Seq<u8>) -> Decoded<u16> {
    if s.len() < 2 { Err(MrtError::UnexpectedEof) } else { Ok((be16(s, 0) as u16, s.skip(2))) }
}

/// A big-endian `u32`.
pub open spec fn take_u32(s: Seq<u8>) -> Decoded<u32> {
    if s.len() < 4 { Err(MrtError::UnexpectedEof) } else { Ok((be32(s, 0) as u32, s.skip(4))) }
}

/// The next `n` bytes.
pub open spec fn take_bytes(s: Seq<u8>, n: int) -> Decoded<Seq<u8>> {
    if s.len() < n { Err(MrtError::UnexpectedEof) } else { Ok((s.take(n), s.skip(n))) }
}

/// Taking nothing leaves the input as it was.
pub broadcast proof fn lemma_advanced_refl(s: Seq<u8>)
    ensures
        #[trigger] advanced(s, s),
{
    assert(s.skip(0) =~= s);
}

/// Taking from the front twice is taking from the front.
pub broadcast proof fn lemma_advanced_trans(a: Seq<u8>, b: Seq<u8>, c: Seq<u8>)
    requires
        #[trigger] advanced(a, b),
        #[trigger] advanced(b, c),
    ensures
        advanced(a, c),
{
    assert(c =~= a.skip(a.len() - c.len()));
}

/// Skipping twice is skipping the sum.
pub proof fn lemma_skip_skip(s: Seq<u8>, m: int, n: int)
    requires
        0 <= m,
        0 <= n,
        m + n <= s.len(),
    ensures
        s.skip(m).skip(n) == s.skip(m + n),
        advanced(s, s.skip(m)),
        advanced(s, s.skip(m + n)),
{
    assert(s.skip(m) =~= s.skip(s.len() - s.skip(m).len()));
    assert(s.skip(m).skip(n) =~= s.skip(m + n));
}

/// The primitive readers take bytes from the front in network order: a
/// `u16` is `256 * s[0] + s[1]`, a `u32` is `s[0] s[1] s[2] s[3]` most
/// significant first, a run of `n` bytes is `s[0..n]` in order; each fails
/// with an unexpected end of input, leaving the input, exactly when it is
/// too short, and otherwise leaves what follows.
pub proof fn law_primitive_reads(
    s: Seq<u8>,
    n: int,
    r8: Result<u8, MrtError>,
    new8: Seq<u8>,
    r16: Result<u16, MrtError>,
    new16: Seq<u8>,
    r32: Result<u32, MrtError>,
    new32: Seq<u8>,
    rb: Result<Seq<u8>, MrtError>,
    newb: Seq<u8>,
)
    requires
        0 <= n,
        decodes(r8, s, new8, take_u8(s)),
        decodes(r16, s, new16, take_u16(s)),
        decodes(r32, s, new32, take_u32(s)),
        decodes(rb, s, newb, take_bytes(s, n)),
    ensures
        r8 is Ok <==> 1 <= s.len(),
        r16 is Ok <==> 2 <= s.len(),
        r32 is Ok <==> 4 <= s.len(),
        rb is Ok <==> n <= s.len(),
        r8 is Err ==> r8 == Err::<u8, MrtError>(MrtError::UnexpectedEof) && new8 == s,
        r16 is Err ==> r16 == Err::<u16, MrtError>(MrtError::UnexpectedEof) && new16 == s,
        r32 is Err ==> r32 == Err::<u32, MrtError>(MrtError::UnexpectedEof) && new32 == s,
        rb is Err ==> rb == Err::<Seq<u8>, MrtError>(MrtError::UnexpectedEof) && newb == s,
        r8 matches Ok(v) ==> v == s[0] && new8 == s.subrange(1, s.len() as int),
        r16 matches Ok(v) ==> v == 256 * s[0] + s[1] && new16 == s.subrange(2, s.len() as int),
        r32 matches Ok(v) ==> v == 16777216 * s[0] + 65536 * s[1] + 256 * s[2] + s[3]
            && new32 == s.subrange(4, s.len() as int),
        rb matches Ok(v) ==> v == s.subrange(0, n) && newb == s.subrange(n, s.len() as int),
{
    if 4 <= s.len() {
        assert(s[0] <= 255 && s[1] <= 255 && s[2] <= 255 && s[3] <= 255);
    }
}

/// `byteorder`'s `BigEndian::read_u16`: the first two bytes of `buf` as a
/// big-endian integer (it panics on fewer than two bytes).
#[verifier::external_body]
fn be_u16(buf: &[u8]) -> (r: u16)
    requires
        buf@.len() >= 2,
    ensures
        r == be16(buf@, 0),
{
    BigEndian::read_u16(buf)
}

/// `byteorder`'s `BigEndian::read_u32`: the first four bytes of `buf` as a
/// big-endian integer (it panics on fewer than four bytes).
#[verifier::external_body]
fn be_u32(buf: &[u8]) -> (r: u32)
    requires
        buf@.len() >= 4,
    ensures
        r == be32(buf@, 0),
{
    BigEndian::read_u32(buf)
}

/// The two bytes of `buf` at `i` as a big-endian `u16`.
pub fn u16_at(buf: &[u8], i: usize) -> (r: u16)
    requires
        i + 2 <= buf@.len(),
    ensures
        r == be16(buf@, i as int),
{
    let (_, tail) = buf.split_at(i);
    be_u16(tail)
}

/// The four bytes of `buf` at `i` as a big-endian `u32`.
pub fn u32_at(buf: &[u8], i: usize) -> (r: u32)
    requires
        i + 4 <= buf@.len(),
    ensures
        r == be32(buf@, i as int),
{
    let (_, tail) = buf.split_at(i);
    be_u32(tail)
}

/// Reads one byte.
pub fn read_u8<'a>(stream: &mut &'a [u8]) -> (r: Result<u8, MrtError>)
    ensures
        decodes(r, old(stream)@, final(stream)@, take_u8(old(stream)@)),
{
    let s: &'a [u8] = *stream;
    if s.len() < 1 {
        return Err(MrtError::UnexpectedEof);
    }
    let (head, rest) = s.split_at(1);
    let v = head[0];
    *stream = rest;
    Ok(v)
}

/// Reads a big-endian `u16`.
pub fn read_u16<'a>(stream: &mut &'a [u8]) -> (r: Result<u16, MrtError>)
    ensures
        decodes(r, old(stream)@, final(stream)@, take_u16(old(stream)@)),
{
    let s: &'a [u8] = *stream;
    if s.len() < 2 {
        return Err(MrtError::UnexpectedEof);
    }
    let (head, rest) = s.split_at(2);
    let v = be_u16(head);
    *stream = rest;
    Ok(v)
}

/// Reads a big-endian `u32`.
pub fn read_u32<'a>(stream: &mut &'a [u8]) -> (r: Result<u32, MrtError>)
    ensures
        decodes(r, old(stream)@, final(stream)@, take_u32(old(stream)@)),
{
    let s: &'a [u8] = *stream;
    if s.len() < 4 {
        return Err(MrtError::UnexpectedEof);
    }
    let (head, rest) = s.split_at(4);
    let v = be_u32(head);
    *stream = rest;
    Ok(v)
}

/// Reads the next `n` bytes into a vector of their own.
pub fn read_bytes<'a>(stream: &mut &'a [u8], n: usize) -> (r: Result<Vec<u8>, MrtError>)
    ensures
        decodes(res_view(r), old(stream)@, final(stream)@, take_bytes(old(stream)@, n as int)),
{
    let s: &'a [u8] = *stream;
    if s.len() < n {
        return Err(MrtError::UnexpectedEof);
    }
    let (head, rest) = s.split_at(n);
    let v = vstd::slice::slice_to_vec(head);
    *stream = rest;
    Ok(v)
}

/// Takes the next `n` bytes without copying them.
pub fn read_slice<'a>(stream: &mut &'a [u8], n: usize) -> (r: Result<&'a [u8], MrtError>)
    ensures
        decodes(res_view(r), old(stream)@, final(stream)@, take_bytes(old(stream)@, n as int)),
{
    let s: &'a [u8] = *stream;
    if s.len() < n {
        return Err(MrtError::UnexpectedEof);
    }
    let (head, rest) = s.split_at(n);
    *stream = rest;
    Ok(head)
}

} // verus!

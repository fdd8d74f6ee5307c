//! Byte-cursor primitives: each decoder consumes an exact number of bytes
//! from the front of a slice and returns the unconsumed remainder together
//! with the decoded value, or a structured error, never panicking.
use crate::util::Writable;
use vstd::prelude::*;

verus! {

/// A structured decoding error; which variant comes back is part of each
/// decoder's contract.
#[derive(Debug, Clone)]
pub enum ParseError {
    /// Expected specific bytes
    ExpectedBytes(Vec<u8>),
    /// Expected bytes and found the end of the input
    UnexpectedEOF,
    /// Expected there to be no more bytes
    ExpectedEOF,
    /// There was an invalid value for an enumeration
    InvalidEnumerationValue,
    /// Expected an exact number of bytes
    ExpectedExact { expected: usize, found: usize },
    /// The amount of bytes was invalid
    InvalidByteCount { found: usize },
}

/// Little-endian image of a `u16`: low byte first.
pub open spec fn spec_u16_le(v: u16) -> Seq<u8> {
    seq![(v & 0xff) as u8, ((v >> 8) & 0xff) as u8]
}

/// The `u16` denoted by two little-endian bytes.
pub open spec fn spec_u16_of_le(s: Seq<u8>) -> u16
    recommends
        s.len() == 2,
{
    (s[0] as u16) | ((s[1] as u16) << 8)
}

/// Little-endian image of a `u32`: low byte first.
pub open spec fn spec_u32_le(v: u32) -> Seq<u8> {
    seq![
        (v & 0xff) as u8,
        ((v >> 8) & 0xff) as u8,
        ((v >> 16) & 0xff) as u8,
        ((v >> 24) & 0xff) as u8,
    ]
}

/// The `u32` denoted by four little-endian bytes.
pub open spec fn spec_u32_of_le(s: Seq<u8>) -> u32
    recommends
        s.len() == 4,
{
    (s[0] as u32) | ((s[1] as u32) << 8) | ((s[2] as u32) << 16) | ((s[3] as u32) << 24)
}

/// A `u16` survives the encode-decode round trip, and its image has 2 bytes.
pub proof fn lemma_u16_le_round_trip(v: u16)
    ensures
        spec_u16_le(v).len() == 2,
        spec_u16_of_le(spec_u16_le(v)) == v,
{
    assert((v & 0xff) < 256 && ((v >> 8) & 0xff) < 256) by (bit_vector);
    assert(((v & 0xff) | (((v >> 8) & 0xff) << 8)) == v) by (bit_vector);
}

/// Two bytes survive the decode-encode round trip.
pub proof fn lemma_u16_le_bytes_round_trip(s: Seq<u8>)
    requires
        s.len() == 2,
    ensures
        spec_u16_le(spec_u16_of_le(s)) == s,
{
    let x = spec_u16_of_le(s);
    let b0 = s[0] as u16;
    let b1 = s[1] as u16;
    assert((x == b0 | (b1 << 8) && b0 < 256 && b1 < 256) ==> (x & 0xff) == b0 && (((x >> 8)
        & 0xff) == b1)) by (bit_vector);
    assert(spec_u16_le(x) =~= s);
}

/// A `u32` survives the encode-decode round trip, and its image has 4 bytes.
pub proof fn lemma_u32_le_round_trip(v: u32)
    ensures
        spec_u32_le(v).len() == 4,
        spec_u32_of_le(spec_u32_le(v)) == v,
{
    assert((v & 0xff) < 256 && ((v >> 8) & 0xff) < 256 && ((v >> 16) & 0xff) < 256 && ((v >> 24)
        & 0xff) < 256) by (bit_vector);
    assert(((v & 0xff) | (((v >> 8) & 0xff) << 8) | (((v >> 16) & 0xff) << 16) | (((v >> 24)
        & 0xff) << 24)) == v) by (bit_vector);
}

/// Four bytes survive the decode-encode round trip.
pub proof fn lemma_u32_le_bytes_round_trip(s: Seq<u8>)
    requires
        s.len() == 4,
    ensures
        spec_u32_le(spec_u32_of_le(s)) == s,
{
    let b0 = s[0] as u32;
    let b1 = s[1] as u32;
    let b2 = s[2] as u32;
    let b3 = s[3] as u32;
    let x = spec_u32_of_le(s);
    assert((x == b0 | (b1 << 8) | (b2 << 16) | (b3 << 24) && b0 < 256 && b1 < 256 && b2 < 256
        && b3 < 256) ==> (x & 0xff) == b0 && ((x >> 8) & 0xff) == b1 && ((x >> 16) & 0xff) == b2
        && ((x >> 24) & 0xff) == b3) by (bit_vector);
    assert(spec_u32_le(spec_u32_of_le(s)) =~= s);
}

/// Little-endian image of a `u64`: low byte first.
pub open spec fn spec_u64_le(v: u64) -> Seq<u8> {
    seq![
        (v & 0xff) as u8,
        ((v >> 8) & 0xff) as u8,
        ((v >> 16) & 0xff) as u8,
        ((v >> 24) & 0xff) as u8,
        ((v >> 32) & 0xff) as u8,
        ((v >> 40) & 0xff) as u8,
        ((v >> 48) & 0xff) as u8,
        ((v >> 56) & 0xff) as u8,
    ]
}

/// The `u64` denoted by eight little-endian bytes.
pub open spec fn spec_u64_of_le(s: Seq<u8>) -> u64
    recommends
        s.len() == 8,
{
    (s[0] as u64) | ((s[1] as u64) << 8) | ((s[2] as u64) << 16) | ((s[3] as u64) << 24) | ((
    s[4] as u64) << 32) | ((s[5] as u64) << 40) | ((s[6] as u64) << 48) | ((s[7] as u64) << 56)
}

/// A `u64` survives the encode-decode round trip, and its image has 8 bytes.
pub proof fn lemma_u64_le_round_trip(v: u64)
    ensures
        spec_u64_le(v).len() == 8,
        spec_u64_of_le(spec_u64_le(v)) == v,
{
    assert((v & 0xff) < 256 && ((v >> 8) & 0xff) < 256 && ((v >> 16) & 0xff) < 256 && ((v >> 24)
        & 0xff) < 256 && ((v >> 32) & 0xff) < 256 && ((v >> 40) & 0xff) < 256 && ((v >> 48)
        & 0xff) < 256 && ((v >> 56) & 0xff) < 256) by (bit_vector);
    assert(((v & 0xff) | (((v >> 8) & 0xff) << 8) | (((v >> 16) & 0xff) << 16) | (((v >> 24)
        & 0xff) << 24) | (((v >> 32) & 0xff) << 32) | (((v >> 40) & 0xff) << 40) | (((v >> 48)
        & 0xff) << 48) | (((v >> 56) & 0xff) << 56)) == v) by (bit_vector);
}

/// Eight bytes survive the decode-encode round trip.
pub proof fn lemma_u64_le_bytes_round_trip(s: Seq<u8>)
    requires
        s.len() == 8,
    ensures
        spec_u64_le(spec_u64_of_le(s)) == s,
{
    let b0 = s[0] as u64;
    let b1 = s[1] as u64;
    let b2 = s[2] as u64;
    let b3 = s[3] as u64;
    let b4 = s[4] as u64;
    let b5 = s[5] as u64;
    let b6 = s[6] as u64;
    let b7 = s[7] as u64;
    let x = spec_u64_of_le(s);
    assert((x == b0 | (b1 << 8) | (b2 << 16) | (b3 << 24) | (b4 << 32) | (b5 << 40) | (b6 << 48)
        | (b7 << 56) && b0 < 256 && b1 < 256 && b2 < 256 && b3 < 256 && b4 < 256 && b5 < 256
        && b6 < 256 && b7 < 256) ==> (x & 0xff) == b0 && ((x >> 8) & 0xff) == b1 && ((x >> 16)
        & 0xff) == b2 && ((x >> 24) & 0xff) == b3 && ((x >> 32) & 0xff) == b4 && ((x >> 40)
        & 0xff) == b5 && ((x >> 48) & 0xff) == b6 && ((x >> 56) & 0xff) == b7) by (bit_vector);
    assert(spec_u64_le(spec_u64_of_le(s)) =~= s);
}

/// Little-endian image of an `i16`: the image of its two's-complement bits.
pub open spec fn spec_i16_le(v: i16) -> Seq<u8> {
    spec_u16_le(v as u16)
}

/// The `i16` denoted by two little-endian bytes.
pub open spec fn spec_i16_of_le(s: Seq<u8>) -> i16
    recommends
        s.len() == 2,
{
    spec_u16_of_le(s) as i16
}

/// An `i16` survives the encode-decode round trip.
pub proof fn lemma_i16_le_round_trip(v: i16)
    ensures
        spec_i16_le(v).len() == 2,
        spec_i16_of_le(spec_i16_le(v)) == v,
{
    lemma_u16_le_round_trip(v as u16);
    assert((v as u16) as i16 == v) by (bit_vector);
}

/// Little-endian image of an `i32`.
pub open spec fn spec_i32_le(v: i32) -> Seq<u8> {
    spec_u32_le(v as u32)
}

/// The `i32` denoted by four little-endian bytes.
pub open spec fn spec_i32_of_le(s: Seq<u8>) -> i32
    recommends
        s.len() == 4,
{
    spec_u32_of_le(s) as i32
}

/// An `i32` survives the encode-decode round trip.
pub proof fn lemma_i32_le_round_trip(v: i32)
    ensures
        spec_i32_le(v).len() == 4,
        spec_i32_of_le(spec_i32_le(v)) == v,
{
    lemma_u32_le_round_trip(v as u32);
    assert((v as u32) as i32 == v) by (bit_vector);
}

/// Little-endian image of an `i64`.
pub open spec fn spec_i64_le(v: i64) -> Seq<u8> {
    spec_u64_le(v as u64)
}

/// The `i64` denoted by eight little-endian bytes.
pub open spec fn spec_i64_of_le(s: Seq<u8>) -> i64
    recommends
        s.len() == 8,
{
    spec_u64_of_le(s) as i64
}

/// An `i64` survives the encode-decode round trip.
pub proof fn lemma_i64_le_round_trip(v: i64)
    ensures
        spec_i64_le(v).len() == 8,
        spec_i64_of_le(spec_i64_le(v)) == v,
{
    lemma_u64_le_round_trip(v as u64);
    assert((v as u64) as i64 == v) by (bit_vector);
}

/// Two bytes survive the signed decode-encode round trip.
pub proof fn lemma_i16_le_bytes_round_trip(s: Seq<u8>)
    requires
        s.len() == 2,
    ensures
        spec_i16_le(spec_i16_of_le(s)) == s,
{
    let x = spec_u16_of_le(s);
    assert((x as i16) as u16 == x) by (bit_vector);
    lemma_u16_le_bytes_round_trip(s);
}

/// Four bytes survive the signed decode-encode round trip.
pub proof fn lemma_i32_le_bytes_round_trip(s: Seq<u8>)
    requires
        s.len() == 4,
    ensures
        spec_i32_le(spec_i32_of_le(s)) == s,
{
    let x = spec_u32_of_le(s);
    assert((x as i32) as u32 == x) by (bit_vector);
    lemma_u32_le_bytes_round_trip(s);
}

/// Eight bytes survive the signed decode-encode round trip.
pub proof fn lemma_i64_le_bytes_round_trip(s: Seq<u8>)
    requires
        s.len() == 8,
    ensures
        spec_i64_le(spec_i64_of_le(s)) == s,
{
    let x = spec_u64_of_le(s);
    assert((x as i64) as u64 == x) by (bit_vector);
    lemma_u64_le_bytes_round_trip(s);
}

/// Image of an `i8`: one two's-complement byte.
pub open spec fn spec_i8_le(v: i8) -> Seq<u8> {
    seq![v as u8]
}

/// The `i8` denoted by one byte.
pub open spec fn spec_i8_of_le(s: Seq<u8>) -> i8
    recommends
        s.len() == 1,
{
    s[0] as i8
}

/// An `i8` survives the encode-decode round trip.
pub proof fn lemma_i8_le_round_trip(v: i8)
    ensures
        spec_i8_le(v).len() == 1,
        spec_i8_of_le(spec_i8_le(v)) == v,
{
    assert((v as u8) as i8 == v) by (bit_vector);
}

/// Consumes one byte; fails with `UnexpectedEOF` on empty input.
pub fn single(data: &[u8]) -> (r: Result<(&[u8], u8), ParseError>)
    ensures
        data@.len() == 0 ==> (r matches Err(e) && e is UnexpectedEOF),
        data@.len() > 0 ==> (r matches Ok((rem, v)) && rem@ == data@.skip(1) && v == data@[0]),
{
    if data.is_empty() {
        Err(ParseError::UnexpectedEOF)
    } else {
        let v = *vstd::slice::slice_index_get(data, 0);
        let rem = vstd::slice::slice_subrange(data, 1, data.len());
        Ok((rem, v))
    }
}

/// Consumes exactly `amount` bytes, returning the remainder and the bytes
/// taken; fails with `UnexpectedEOF` when fewer remain.
pub fn take(data: &[u8], amount: usize) -> (r: Result<(&[u8], &[u8]), ParseError>)
    ensures
        data@.len() < amount ==> (r matches Err(e) && e is UnexpectedEOF),
        data@.len() >= amount ==> (r matches Ok((rem, taken)) && rem@ == data@.skip(amount as int)
            && taken@ == data@.take(amount as int)),
{
    if data.len() < amount {
        Err(ParseError::UnexpectedEOF)
    } else {
        let taken = vstd::slice::slice_subrange(data, 0, amount);
        let rem = vstd::slice::slice_subrange(data, amount, data.len());
        Ok((rem, taken))
    }
}

/// Decodes a little-endian `u16` from the front of the input.
pub fn le_u16(data: &[u8]) -> (r: Result<(&[u8], u16), ParseError>)
    ensures
        data@.len() < 2 ==> (r matches Err(e) && e is UnexpectedEOF),
        data@.len() >= 2 ==> (r matches Ok((rem, v)) && rem@ == data@.skip(2) && v
            == spec_u16_of_le(data@.take(2))),
{
    if data.len() < 2 {
        return Err(ParseError::UnexpectedEOF);
    }
    let b0 = *vstd::slice::slice_index_get(data, 0);
    let b1 = *vstd::slice::slice_index_get(data, 1);
    let v = (b0 as u16) | ((b1 as u16) << 8);
    let rem = vstd::slice::slice_subrange(data, 2, data.len());
    Ok((rem, v))
}

/// Decodes a little-endian `i16` from the front of the input.
pub fn le_i16(data: &[u8]) -> (r: Result<(&[u8], i16), ParseError>)
    ensures
        data@.len() < 2 ==> (r matches Err(e) && e is UnexpectedEOF),
        data@.len() >= 2 ==> (r matches Ok((rem, v)) && rem@ == data@.skip(2) && v
            == spec_i16_of_le(data@.take(2))),
{
    match le_u16(data) {
        Ok((rem, v)) => Ok((rem, #[verifier::truncate] (v as i16))),
        Err(e) => Err(e),
    }
}

/// Decodes a little-endian `u32` from the front of the input.
pub fn le_u32(data: &[u8]) -> (r: Result<(&[u8], u32), ParseError>)
    ensures
        data@.len() < 4 ==> (r matches Err(e) && e is UnexpectedEOF),
        data@.len() >= 4 ==> (r matches Ok((rem, v)) && rem@ == data@.skip(4) && v
            == spec_u32_of_le(data@.take(4))),
{
    if data.len() < 4 {
        return Err(ParseError::UnexpectedEOF);
    }
    let b0 = *vstd::slice::slice_index_get(data, 0);
    let b1 = *vstd::slice::slice_index_get(data, 1);
    let b2 = *vstd::slice::slice_index_get(data, 2);
    let b3 = *vstd::slice::slice_index_get(data, 3);
    let v = (b0 as u32) | ((b1 as u32) << 8) | ((b2 as u32) << 16) | ((b3 as u32) << 24);
    let rem = vstd::slice::slice_subrange(data, 4, data.len());
    Ok((rem, v))
}

/// Decodes a little-endian `i32` from the front of the input.
pub fn le_i32(data: &[u8]) -> (r: Result<(&[u8], i32), ParseError>)
    ensures
        data@.len() < 4 ==> (r matches Err(e) && e is UnexpectedEOF),
        data@.len() >= 4 ==> (r matches Ok((rem, v)) && rem@ == data@.skip(4) && v
            == spec_i32_of_le(data@.take(4))),
{
    match le_u32(data) {
        Ok((rem, v)) => Ok((rem, #[verifier::truncate] (v as i32))),
        Err(e) => Err(e),
    }
}

/// Decodes a little-endian `u64` from the front of the input.
pub fn le_u64(data: &[u8]) -> (r: Result<(&[u8], u64), ParseError>)
    ensures
        data@.len() < 8 ==> (r matches Err(e) && e is UnexpectedEOF),
        data@.len() >= 8 ==> (r matches Ok((rem, v)) && rem@ == data@.skip(8) && v
            == spec_u64_of_le(data@.take(8))),
{
    if data.len() < 8 {
        return Err(ParseError::UnexpectedEOF);
    }
    let b0 = *vstd::slice::slice_index_get(data, 0);
    let b1 = *vstd::slice::slice_index_get(data, 1);
    let b2 = *vstd::slice::slice_index_get(data, 2);
    let b3 = *vstd::slice::slice_index_get(data, 3);
    let b4 = *vstd::slice::slice_index_get(data, 4);
    let b5 = *vstd::slice::slice_index_get(data, 5);
    let b6 = *vstd::slice::slice_index_get(data, 6);
    let b7 = *vstd::slice::slice_index_get(data, 7);
    let v = (b0 as u64) | ((b1 as u64) << 8) | ((b2 as u64) << 16) | ((b3 as u64) << 24) | ((
    b4 as u64) << 32) | ((b5 as u64) << 40) | ((b6 as u64) << 48) | ((b7 as u64) << 56);
    let rem = vstd::slice::slice_subrange(data, 8, data.len());
    Ok((rem, v))
}

/// Decodes a little-endian `i64` from the front of the input.
pub fn le_i64(data: &[u8]) -> (r: Result<(&[u8], i64), ParseError>)
    ensures
        data@.len() < 8 ==> (r matches Err(e) && e is UnexpectedEOF),
        data@.len() >= 8 ==> (r matches Ok((rem, v)) && rem@ == data@.skip(8) && v
            == spec_i64_of_le(data@.take(8))),
{
    match le_u64(data) {
        Ok((rem, v)) => Ok((rem, #[verifier::truncate] (v as i64))),
        Err(e) => Err(e),
    }
}

/// Requires the input to begin with exactly the bytes of `expect`, consumes
/// them, and returns them; fails with `ExpectedBytes` otherwise.
pub fn tag<'a>(data: &'a [u8], expect: &'a [u8]) -> (r: Result<(&'a [u8], &'a [u8]), ParseError>)
    ensures
        r matches Ok((rem, t)) ==> data@.len() >= expect@.len() && data@.take(expect@.len() as int)
            == expect@ && rem@ == data@.skip(expect@.len() as int) && t@ == expect@,
        r is Err ==> !(data@.len() >= expect@.len() && data@.take(expect@.len() as int)
            == expect@),
        r matches Err(e) ==> e matches ParseError::ExpectedBytes(b) && b@ == expect@,
{
    if data.len() < expect.len() {
        return Err(ParseError::ExpectedBytes(vstd::slice::slice_to_vec(expect)));
    }
    let mut i: usize = 0;
    while i < expect.len()
        invariant
            0 <= i <= expect@.len() <= data@.len(),
            forall|j: int| 0 <= j < i ==> data@[j] == expect@[j],
        decreases expect@.len() - i,
    {
        if *vstd::slice::slice_index_get(data, i) != *vstd::slice::slice_index_get(expect, i) {
            return Err(ParseError::ExpectedBytes(vstd::slice::slice_to_vec(expect)));
        }
        i += 1;
    }
    assert(data@.take(expect@.len() as int) =~= expect@);
    let rem = vstd::slice::slice_subrange(data, expect.len(), data.len());
    Ok((rem, expect))
}

/// Consumes bytes up to, but not including, the first occurrence of `until`;
/// the remainder begins with that occurrence. Fails with `UnexpectedEOF`
/// when the byte never occurs.
pub fn take_until(data: &[u8], until: u8) -> (r: Result<(&[u8], &[u8]), ParseError>)
    ensures
        r matches Ok((rem, taken)) ==> {
            let n = taken@.len() as int;
            &&& n < data@.len()
            &&& taken@ == data@.take(n)
            &&& rem@ == data@.skip(n)
            &&& data@[n] == until
            &&& forall|j: int| 0 <= j < n ==> data@[j] != until
        },
        r is Err <==> (forall|j: int| 0 <= j < data@.len() ==> data@[j] != until),
        r matches Err(e) ==> e is UnexpectedEOF,
{
    let mut i: usize = 0;
    while i < data.len()
        invariant
            0 <= i <= data@.len(),
            forall|j: int| 0 <= j < i ==> data@[j] != until,
        decreases data@.len() - i,
    {
        if *vstd::slice::slice_index_get(data, i) == until {
            let taken = vstd::slice::slice_subrange(data, 0, i);
            let rem = vstd::slice::slice_subrange(data, i, data.len());
            return Ok((rem, taken));
        }
        i += 1;
    }
    Err(ParseError::UnexpectedEOF)
}

/// Whether `v` is a value that some application of `func` can return.
/// One successful application of `func`: on input `x` it returned the
/// remainder `y` and the value `v`.
pub open spec fn spec_step_ok<'a, V, F: Fn(&'a [u8]) -> Result<(&'a [u8], V), ParseError>>(
    func: F,
    x: &'a [u8],
    y: &'a [u8],
    v: V,
) -> bool {
    call_ensures(func, (x,), Ok((y, v)))
}

/// One failing application of `func`: on input `x` it returned the error
/// `e`.
pub open spec fn spec_step_err<'a, V, F: Fn(&'a [u8]) -> Result<(&'a [u8], V), ParseError>>(
    func: F,
    x: &'a [u8],
    e: ParseError,
) -> bool {
    call_ensures(func, (x,), Err(e))
}

/// A run of sequential applications of `func`: `chain` threads the
/// remainders, so step `i` turned `chain[i]` into `chain[i + 1]` and
/// produced `vals[i]`.
pub open spec fn spec_chain<'a, V, F: Fn(&'a [u8]) -> Result<(&'a [u8], V), ParseError>>(
    func: F,
    chain: Seq<&'a [u8]>,
    vals: Seq<V>,
) -> bool {
    &&& chain.len() == vals.len() + 1
    &&& forall|i: int|
        0 <= i < vals.len() ==> spec_step_ok(func, chain[i], chain[i + 1], #[trigger] vals[i])
}

/// Whether `vals` is exactly what a run of sequential applications of
/// `func` starting from `data` produces, ending with remainder `rem`.
pub open spec fn spec_chained_run<'a, V, F: Fn(&'a [u8]) -> Result<(&'a [u8], V), ParseError>>(
    func: F,
    data: &'a [u8],
    rem: &'a [u8],
    vals: Seq<V>,
) -> bool {
    exists|chain: Seq<&'a [u8]>|
        {
            &&& #[trigger] spec_chain(func, chain, vals)
            &&& chain[0] == data
            &&& chain[vals.len() as int] == rem
        }
}

/// Whether `e` is what some run of sequential applications of `func`
/// starting from `data` eventually fails with.
pub open spec fn spec_chained_failure<'a, V, F: Fn(&'a [u8]) -> Result<(&'a [u8], V), ParseError>>(
    func: F,
    data: &'a [u8],
    e: ParseError,
) -> bool {
    exists|chain: Seq<&'a [u8]>, vals: Seq<V>|
        {
            &&& #[trigger] spec_chain(func, chain, vals)
            &&& chain[0] == data
            &&& spec_step_err(func, chain.last(), e)
        }
}

/// Applies `func` exactly `amount` times, collecting the results in order;
/// each application continues on the remainder the previous one returned,
/// starting from `data`, and the first failure comes back unchanged.
pub fn count<'a, V, F: Fn(&'a [u8]) -> Result<(&'a [u8], V), ParseError>>(
    data: &'a [u8],
    func: F,
    amount: usize,
) -> (r: Result<(&'a [u8], Vec<V>), ParseError>)
    requires
        forall|x: &'a [u8]| #[trigger] call_requires(func, (x,)),
    ensures
        r matches Ok((rem, vals)) ==> vals@.len() == amount && spec_chained_run(
            func,
            data,
            rem,
            vals@,
        ),
        r matches Err(e) ==> (exists|chain: Seq<&'a [u8]>, vals: Seq<V>|
            {
                &&& #[trigger] spec_chain(func, chain, vals)
                &&& chain[0] == data
                &&& vals.len() < amount
                &&& spec_step_err(func, chain.last(), e)
            }),
        amount == 0 ==> (r matches Ok((rem, vals)) && rem@ == data@ && vals@.len() == 0),
{
    let mut result: Vec<V> = Vec::new();
    let mut cur: &'a [u8] = data;
    let mut n: usize = 0;
    let ghost mut chain: Seq<&'a [u8]> = Seq::empty().push(data);
    while n < amount
        invariant
            forall|x: &'a [u8]| #[trigger] call_requires(func, (x,)),
            0 <= n <= amount,
            result@.len() == n,
            n == 0 ==> cur@ == data@,
            chain.len() == n + 1,
            chain[0] == data,
            chain[n as int] == cur,
            spec_chain(func, chain, result@),
        decreases amount - n,
    {
        match func(cur) {
            Ok((rest, v)) => {
                proof {
                    assert(spec_step_ok(func, cur, rest, v));
                    chain = chain.push(rest);
                    assert(spec_chain(func, chain, result@.push(v)));
                }
                result.push(v);
                cur = rest;
            },
            Err(e) => {
                proof {
                    assert(spec_step_err(func, cur, e));
                    assert(chain.last() == cur);
                }
                return Err(e);
            },
        }
        n += 1;
    }
    proof {
        assert(spec_chain(func, chain, result@) && chain[0] == data && chain[amount as int]
            == cur);
        assert(spec_chained_run(func, data, cur, result@));
    }
    Ok((cur, result))
}

/// Applies `func` repeatedly until the input is exhausted, collecting the
/// results in order; each application continues on the remainder the
/// previous one returned, starting from `data`. Each successful application
/// must consume at least one byte, so the run always terminates; the first
/// failure comes back unchanged.
#[verifier::rlimit(50)]
pub fn many<'a, V, F: Fn(&'a [u8]) -> Result<(&'a [u8], V), ParseError>>(
    data: &'a [u8],
    func: F,
) -> (r: Result<(&'a [u8], Vec<V>), ParseError>)
    requires
        forall|x: &'a [u8]| #[trigger] call_requires(func, (x,)),
        forall|x: &'a [u8], rem: &'a [u8], v: V|
            call_ensures(func, (x,), Ok((rem, v))) ==> rem@.len() < x@.len(),
    ensures
        r matches Ok((rem, vals)) ==> rem@.len() == 0 && spec_chained_run(func, data, rem, vals@),
        r matches Err(e) ==> spec_chained_failure::<V, F>(func, data, e),
        data@.len() == 0 ==> (r matches Ok((rem, vals)) && vals@.len() == 0),
{
    let mut result: Vec<V> = Vec::new();
    let mut cur: &'a [u8] = data;
    let ghost mut chain: Seq<&'a [u8]> = Seq::empty().push(data);
    while cur.len() > 0
        invariant
            forall|x: &'a [u8]| #[trigger] call_requires(func, (x,)),
            forall|x: &'a [u8], rem: &'a [u8], v: V|
                call_ensures(func, (x,), Ok((rem, v))) ==> rem@.len() < x@.len(),
            cur@.len() <= data@.len(),
            data@.len() == 0 ==> (cur@ == data@ && result@.len() == 0),
            chain.len() == result@.len() + 1,
            chain[0] == data,
            chain.last() == cur,
            spec_chain(func, chain, result@),
        decreases cur@.len(),
    {
        match func(cur) {
            Ok((rest, v)) => {
                proof {
                    assert(spec_step_ok(func, cur, rest, v));
                    chain = chain.push(rest);
                    assert(spec_chain(func, chain, result@.push(v)));
                }
                result.push(v);
                cur = rest;
            },
            Err(e) => {
                proof {
                    assert(spec_step_err(func, cur, e));
                    assert(chain.last() == cur);
                    assert(spec_chained_failure::<V, F>(func, data, e));
                }
                return Err(e);
            },
        }
    }
    proof {
        assert(spec_chain(func, chain, result@) && chain[0] == data && chain[result@.len() as int]
            == cur);
        assert(spec_chained_run(func, data, cur, result@));
    }
    Ok((cur, result))
}

/// A fixed-width value with a little-endian byte image: decoding consumes
/// exactly `spec_size` bytes and is the inverse of writing.
pub trait Parse: Sized + Writable {
    /// Exact byte width of every encoded value.
    spec fn spec_size() -> nat;

    /// Whether an image of `spec_size` bytes denotes a value at all.
    spec fn spec_valid(s: Seq<u8>) -> bool
        recommends
            s.len() == Self::spec_size(),
    ;

    /// The value an image denotes.
    spec fn spec_decode(s: Seq<u8>) -> Self
        recommends
            s.len() == Self::spec_size(),
            Self::spec_valid(s),
    ;

    /// Every image has exactly `spec_size` bytes and is itself valid.
    proof fn lemma_encode_size(v: Self)
        ensures
            v.serialized().len() == Self::spec_size(),
            Self::spec_valid(v.serialized()),
    ;

    /// A value survives the encode-decode round trip.
    proof fn lemma_round_trip(v: Self)
        ensures
            Self::spec_decode(v.serialized()) == v,
    ;

    /// A valid image survives the decode-encode round trip.
    proof fn lemma_bytes_round_trip(s: Seq<u8>)
        requires
            s.len() == Self::spec_size(),
            Self::spec_valid(s),
        ensures
            Self::spec_decode(s).serialized() == s,
    ;

    /// Decodes one value from the front of the input: `UnexpectedEOF` when
    /// fewer than `spec_size` bytes remain, `InvalidEnumerationValue` when
    /// the image denotes no value, and otherwise exactly the denoted value
    /// with the image consumed.
    fn parse(data: &[u8]) -> (r: Result<(&[u8], Self), ParseError>)
        ensures
            data@.len() < Self::spec_size() ==> (r matches Err(e) && e is UnexpectedEOF),
            data@.len() >= Self::spec_size() && Self::spec_valid(
                data@.take(Self::spec_size() as int),
            ) ==> (r matches Ok((rem, v)) && rem@ == data@.skip(Self::spec_size() as int) && v
                == Self::spec_decode(data@.take(Self::spec_size() as int))),
            data@.len() >= Self::spec_size() && !Self::spec_valid(
                data@.take(Self::spec_size() as int),
            ) ==> (r matches Err(e) && e is InvalidEnumerationValue),
    ;
}

impl Parse for u8 {
    open spec fn spec_size() -> nat {
        1
    }

    open spec fn spec_valid(s: Seq<u8>) -> bool {
        true
    }

    open spec fn spec_decode(s: Seq<u8>) -> u8 {
        s[0]
    }

    proof fn lemma_encode_size(v: u8) {
    }

    proof fn lemma_round_trip(v: u8) {
    }

    proof fn lemma_bytes_round_trip(s: Seq<u8>) {
        assert(Self::spec_decode(s).serialized() =~= s);
    }

    fn parse(data: &[u8]) -> (r: Result<(&[u8], Self), ParseError>) {
        single(data)
    }
}

impl Parse for i8 {
    open spec fn spec_size() -> nat {
        1
    }

    open spec fn spec_valid(s: Seq<u8>) -> bool {
        true
    }

    open spec fn spec_decode(s: Seq<u8>) -> i8 {
        spec_i8_of_le(s)
    }

    proof fn lemma_encode_size(v: i8) {
    }

    proof fn lemma_round_trip(v: i8) {
        lemma_i8_le_round_trip(v);
    }

    proof fn lemma_bytes_round_trip(s: Seq<u8>) {
        let b = s[0];
        assert((b as i8) as u8 == b) by (bit_vector);
        assert(Self::spec_decode(s).serialized() =~= s);
    }

    fn parse(data: &[u8]) -> (r: Result<(&[u8], Self), ParseError>) {
        match single(data) {
            Ok((rem, v)) => Ok((rem, #[verifier::truncate] (v as i8))),
            Err(e) => Err(e),
        }
    }
}

impl Parse for u16 {
    open spec fn spec_size() -> nat {
        2
    }

    open spec fn spec_valid(s: Seq<u8>) -> bool {
        true
    }

    open spec fn spec_decode(s: Seq<u8>) -> u16 {
        spec_u16_of_le(s)
    }

    proof fn lemma_encode_size(v: u16) {
        lemma_u16_le_round_trip(v);
    }

    proof fn lemma_round_trip(v: u16) {
        lemma_u16_le_round_trip(v);
    }

    proof fn lemma_bytes_round_trip(s: Seq<u8>) {
        lemma_u16_le_bytes_round_trip(s);
    }

    fn parse(data: &[u8]) -> (r: Result<(&[u8], Self), ParseError>) {
        le_u16(data)
    }
}

impl Parse for i16 {
    open spec fn spec_size() -> nat {
        2
    }

    open spec fn spec_valid(s: Seq<u8>) -> bool {
        true
    }

    open spec fn spec_decode(s: Seq<u8>) -> i16 {
        spec_i16_of_le(s)
    }

    proof fn lemma_encode_size(v: i16) {
        lemma_i16_le_round_trip(v);
    }

    proof fn lemma_round_trip(v: i16) {
        lemma_i16_le_round_trip(v);
    }

    proof fn lemma_bytes_round_trip(s: Seq<u8>) {
        let x = spec_u16_of_le(s);
        assert((x as i16) as u16 == x) by (bit_vector);
        lemma_u16_le_bytes_round_trip(s);
    }

    fn parse(data: &[u8]) -> (r: Result<(&[u8], Self), ParseError>) {
        le_i16(data)
    }
}

impl Parse for u32 {
    open spec fn spec_size() -> nat {
        4
    }

    open spec fn spec_valid(s: Seq<u8>) -> bool {
        true
    }

    open spec fn spec_decode(s: Seq<u8>) -> u32 {
        spec_u32_of_le(s)
    }

    proof fn lemma_encode_size(v: u32) {
        lemma_u32_le_round_trip(v);
    }

    proof fn lemma_round_trip(v: u32) {
        lemma_u32_le_round_trip(v);
    }

    proof fn lemma_bytes_round_trip(s: Seq<u8>) {
        lemma_u32_le_bytes_round_trip(s);
    }

    fn parse(data: &[u8]) -> (r: Result<(&[u8], Self), ParseError>) {
        le_u32(data)
    }
}

impl Parse for i32 {
    open spec fn spec_size() -> nat {
        4
    }

    open spec fn spec_valid(s: Seq<u8>) -> bool {
        true
    }

    open spec fn spec_decode(s: Seq<u8>) -> i32 {
        spec_i32_of_le(s)
    }

    proof fn lemma_encode_size(v: i32) {
        lemma_i32_le_round_trip(v);
    }

    proof fn lemma_round_trip(v: i32) {
        lemma_i32_le_round_trip(v);
    }

    proof fn lemma_bytes_round_trip(s: Seq<u8>) {
        let x = spec_u32_of_le(s);
        assert((x as i32) as u32 == x) by (bit_vector);
        lemma_u32_le_bytes_round_trip(s);
    }

    fn parse(data: &[u8]) -> (r: Result<(&[u8], Self), ParseError>) {
        le_i32(data)
    }
}

impl Parse for u64 {
    open spec fn spec_size() -> nat {
        8
    }

    open spec fn spec_valid(s: Seq<u8>) -> bool {
        true
    }

    open spec fn spec_decode(s: Seq<u8>) -> u64 {
        spec_u64_of_le(s)
    }

    proof fn lemma_encode_size(v: u64) {
        lemma_u64_le_round_trip(v);
    }

    proof fn lemma_round_trip(v: u64) {
        lemma_u64_le_round_trip(v);
    }

    proof fn lemma_bytes_round_trip(s: Seq<u8>) {
        lemma_u64_le_bytes_round_trip(s);
    }

    fn parse(data: &[u8]) -> (r: Result<(&[u8], Self), ParseError>) {
        le_u64(data)
    }
}

impl Parse for i64 {
    open spec fn spec_size() -> nat {
        8
    }

    open spec fn spec_valid(s: Seq<u8>) -> bool {
        true
    }

    open spec fn spec_decode(s: Seq<u8>) -> i64 {
        spec_i64_of_le(s)
    }

    proof fn lemma_encode_size(v: i64) {
        lemma_i64_le_round_trip(v);
    }

    proof fn lemma_round_trip(v: i64) {
        lemma_i64_le_round_trip(v);
    }

    proof fn lemma_bytes_round_trip(s: Seq<u8>) {
        let x = spec_u64_of_le(s);
        assert((x as i64) as u64 == x) by (bit_vector);
        lemma_u64_le_bytes_round_trip(s);
    }

    fn parse(data: &[u8]) -> (r: Result<(&[u8], Self), ParseError>) {
        le_i64(data)
    }
}

} // verus!

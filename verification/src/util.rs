//! Serialization traits and small shared value types.
//!
//! `Writable` ties every encodable value to its exact byte image
//! (`serialized`); `DataSize` computes that image's length without writing;
//! `StaticDataSize` refines it for types whose image width never varies.
use vstd::prelude::*;

verus! {

/// A value with an exact byte image that can be appended to a buffer.
pub trait Writable {
    /// The exact bytes this value writes.
    spec fn serialized(&self) -> Seq<u8>;

    /// Appends the byte image to `w`; the buffer's previous contents are
    /// kept unchanged in place. The image must fit the machine's address
    /// space, as any in-memory value's image does.
    fn write_to(&self, w: &mut Vec<u8>)
        requires
            self.serialized().len() <= usize::MAX,
        ensures
            final(w)@ == old(w)@ + self.serialized(),
    ;
}

/// A value whose byte-image length can be computed without writing; the
/// computed size and the written length always agree.
pub trait DataSize: Writable {
    /// Returns exactly the length of `serialized`.
    fn data_size(&self) -> (r: usize)
        requires
            self.serialized().len() <= usize::MAX,
        ensures
            r == self.serialized().len(),
    ;
}

/// A value whose byte-image length depends only on its type.
pub trait StaticDataSize: Writable {
    /// The one image length every value of this type has.
    spec fn spec_static_size() -> nat;

    /// Every value's image has exactly that length.
    proof fn lemma_static_size(&self)
        ensures
            self.serialized().len() == Self::spec_static_size(),
    ;

    /// Returns exactly `spec_static_size`.
    fn static_data_size() -> (r: usize)
        ensures
            r == Self::spec_static_size(),
    ;
}

/// Concatenation of the byte images of a run of values, in order.
pub open spec fn spec_serialized_all<U: Writable>(s: Seq<U>) -> Seq<u8>
    decreases s.len(),
{
    if s.len() == 0 {
        Seq::empty()
    } else {
        s[0].serialized() + spec_serialized_all(s.skip(1))
    }
}

/// Extending a run by one value appends that value's image.
pub proof fn lemma_serialized_all_snoc<U: Writable>(s: Seq<U>, i: int)
    requires
        0 <= i < s.len(),
    ensures
        spec_serialized_all(s.take(i + 1)) == spec_serialized_all(s.take(i)) + s[i].serialized(),
    decreases i,
{
    if i == 0 {
        assert(s.take(1).skip(1) =~= Seq::<U>::empty());
        assert(spec_serialized_all(s.take(1).skip(1)) =~= Seq::<u8>::empty());
        assert(s.take(0) =~= Seq::<U>::empty());
        assert(spec_serialized_all(s.take(0)) =~= Seq::<u8>::empty());
        assert(s.take(1)[0] == s[0]);
        assert(spec_serialized_all(s.take(1)) =~= s[0].serialized());
        assert(spec_serialized_all(s.take(0)) + s[0].serialized() =~= s[0].serialized());
    } else {
        let t = s.skip(1);
        lemma_serialized_all_snoc(t, i - 1);
        assert(s.take(i + 1).skip(1) =~= t.take(i));
        assert(s.take(i).skip(1) =~= t.take(i - 1));
        assert(s.take(i + 1)[0] == s[0]);
        assert(s.take(i)[0] == s[0]);
        assert(spec_serialized_all(s.take(i + 1)) == s[0].serialized() + spec_serialized_all(
            t.take(i),
        ));
        assert(spec_serialized_all(s.take(i)) == s[0].serialized() + spec_serialized_all(
            t.take(i - 1),
        ));
        assert(t[i - 1] == s[i]);
        assert(spec_serialized_all(s.take(i + 1)) =~= spec_serialized_all(s.take(i))
            + s[i].serialized());
    }
}

/// Appending one value to a run appends that value's image.
pub proof fn lemma_serialized_all_push<U: Writable>(s: Seq<U>, v: U)
    ensures
        spec_serialized_all(s.push(v)) == spec_serialized_all(s) + v.serialized(),
{
    let t = s.push(v);
    assert(t.take(t.len() - 1) =~= s);
    lemma_serialized_all_snoc(t, t.len() - 1);
    lemma_serialized_all_take_all(t);
    assert(t[t.len() - 1] == v);
}

/// Every byte image in a run is at least as long as the run of its prefix.
pub proof fn lemma_serialized_all_len<U: StaticDataSize>(s: Seq<U>)
    ensures
        spec_serialized_all(s).len() == s.len() * U::spec_static_size(),
    decreases s.len(),
{
    if s.len() == 0 {
    } else {
        s[0].lemma_static_size();
        lemma_serialized_all_len(s.skip(1));
        assert(s.len() * U::spec_static_size() == U::spec_static_size() + (s.len() - 1)
            * U::spec_static_size()) by (nonlinear_arith);
    }
}

/// Compares two 4-byte tags for exact byte equality.
pub fn tag_eq(a: &[u8; 4], b: &[u8; 4]) -> (r: bool)
    ensures
        r == (a@ == b@),
{
    let r = a[0] == b[0] && a[1] == b[1] && a[2] == b[2] && a[3] == b[3];
    proof {
        if r {
            assert(a@ =~= b@);
        }
    }
    r
}

/// A full run equals its full-length prefix.
pub proof fn lemma_serialized_all_take_all<U: Writable>(s: Seq<U>)
    ensures
        spec_serialized_all(s.take(s.len() as int)) == spec_serialized_all(s),
{
    assert(s.take(s.len() as int) =~= s);
}

impl<U: Writable> Writable for Vec<U> {
    /// The images of the elements, in order, with nothing between them.
    open spec fn serialized(&self) -> Seq<u8> {
        spec_serialized_all(self@)
    }

    fn write_to(&self, w: &mut Vec<u8>) {
        let ghost orig = w@;
        let mut i: usize = 0;
        proof {
            assert(w@ =~= orig + spec_serialized_all(self@.take(0)));
        }
        while i < self.len()
            invariant
                0 <= i <= self@.len(),
                spec_serialized_all(self@).len() <= usize::MAX,
                w@ == orig + spec_serialized_all(self@.take(i as int)),
            decreases self@.len() - i,
        {
            proof {
                lemma_serialized_all_snoc(self@, i as int);
                lemma_serialized_all_prefix_len(self@, i + 1);
            }
            self[i].write_to(w);
            i += 1;
        }
        proof {
            lemma_serialized_all_take_all(self@);
        }
    }
}

impl<U: DataSize> DataSize for Vec<U> {
    fn data_size(&self) -> (r: usize) {
        proof {
            lemma_serialized_all_prefix_len(self@, 0);
        }
        let mut total: usize = 0;
        let mut i: usize = 0;
        while i < self.len()
            invariant
                0 <= i <= self@.len(),
                spec_serialized_all(self@).len() <= usize::MAX,
                total == spec_serialized_all(self@.take(i as int)).len(),
            decreases self@.len() - i,
        {
            proof {
                lemma_serialized_all_snoc(self@, i as int);
                lemma_serialized_all_prefix_len(self@, i + 1);
            }
            total = total + self[i].data_size();
            i += 1;
        }
        proof {
            lemma_serialized_all_take_all(self@);
        }
        total
    }
}

/// A prefix of a run writes no more bytes than the whole run.
pub proof fn lemma_serialized_all_prefix_len<U: Writable>(s: Seq<U>, i: int)
    requires
        0 <= i <= s.len(),
    ensures
        spec_serialized_all(s.take(i)).len() <= spec_serialized_all(s).len(),
    decreases s.len() - i,
{
    if i == s.len() {
        lemma_serialized_all_take_all(s);
    } else {
        lemma_serialized_all_snoc(s, i);
        lemma_serialized_all_prefix_len(s, i + 1);
    }
}

/// Raw IEEE 754 single-precision bits. The core keeps and rewrites them
/// verbatim and never computes with them.
#[derive(Debug, Copy, Clone, PartialEq, Eq, Structural)]
pub struct Float32 {
    pub bits: u32,
}

/// A pair of coordinates, stored and encoded x first.
#[derive(Debug, Copy, Clone, PartialEq, Eq, Structural)]
pub struct Position<T: Copy + PartialEq> {
    pub x: T,
    pub y: T,
}

impl<T: Copy + PartialEq> Position<T> {
    /// Builds the pair from its two coordinates.
    pub fn new(x: T, y: T) -> (r: Position<T>)
        ensures
            r.x == x && r.y == y,
    {
        Position { x, y }
    }
}

/// A triple of coordinates, stored and encoded x, y, z.
#[derive(Debug, Copy, Clone, PartialEq, Eq, Structural)]
pub struct Position3<T: Copy + PartialEq> {
    pub x: T,
    pub y: T,
    pub z: T,
}

impl<T: Copy + PartialEq> Position3<T> {
    /// Builds the triple from its three coordinates.
    pub fn new(x: T, y: T, z: T) -> (r: Position3<T>)
        ensures
            r.x == x && r.y == y && r.z == z,
    {
        Position3 { x, y, z }
    }
}

/// The first four bytes of a slice as a fixed array.
pub fn as_4_bytes(b: &[u8]) -> (r: [u8; 4])
    requires
        b@.len() >= 4,
    ensures
        r@ == b@.take(4),
{
    let r = [*vstd::slice::slice_index_get(b, 0), *vstd::slice::slice_index_get(b, 1), *vstd::slice::slice_index_get(b, 2), *vstd::slice::slice_index_get(b, 3)];
    proof {
        assert(r@ =~= b@.take(4));
    }
    r
}

impl Writable for u8 {
    open spec fn serialized(&self) -> Seq<u8> {
        seq![*self]
    }

    fn write_to(&self, w: &mut Vec<u8>) {
        w.push(*self);
        proof {
            assert(w@ =~= old(w)@ + self.serialized());
        }
    }
}

impl Writable for i8 {
    open spec fn serialized(&self) -> Seq<u8> {
        crate::parse::spec_i8_le(*self)
    }

    fn write_to(&self, w: &mut Vec<u8>) {
        w.push(#[verifier::truncate] (*self as u8));
        proof {
            assert(w@ =~= old(w)@ + self.serialized());
        }
    }
}

impl Writable for u16 {
    open spec fn serialized(&self) -> Seq<u8> {
        crate::parse::spec_u16_le(*self)
    }

    fn write_to(&self, w: &mut Vec<u8>) {
        let v = *self;
        w.push((v & 0xff) as u8);
        w.push(((v >> 8) & 0xff) as u8);
        proof {
            assert(w@ =~= old(w)@ + self.serialized());
        }
    }
}

impl Writable for i16 {
    open spec fn serialized(&self) -> Seq<u8> {
        crate::parse::spec_i16_le(*self)
    }

    fn write_to(&self, w: &mut Vec<u8>) {
        let v = #[verifier::truncate] (*self as u16);
        v.write_to(w);
        proof {
            assert(v == *self as u16);
            assert(w@ =~= old(w)@ + self.serialized());
        }
    }
}

impl Writable for u32 {
    open spec fn serialized(&self) -> Seq<u8> {
        crate::parse::spec_u32_le(*self)
    }

    fn write_to(&self, w: &mut Vec<u8>) {
        let v = *self;
        w.push((v & 0xff) as u8);
        w.push(((v >> 8) & 0xff) as u8);
        w.push(((v >> 16) & 0xff) as u8);
        w.push(((v >> 24) & 0xff) as u8);
        proof {
            assert(w@ =~= old(w)@ + self.serialized());
        }
    }
}

impl Writable for i32 {
    open spec fn serialized(&self) -> Seq<u8> {
        crate::parse::spec_i32_le(*self)
    }

    fn write_to(&self, w: &mut Vec<u8>) {
        let v = #[verifier::truncate] (*self as u32);
        v.write_to(w);
        proof {
            assert(v == *self as u32);
            assert(w@ =~= old(w)@ + self.serialized());
        }
    }
}

impl Writable for u64 {
    open spec fn serialized(&self) -> Seq<u8> {
        crate::parse::spec_u64_le(*self)
    }

    fn write_to(&self, w: &mut Vec<u8>) {
        let v = *self;
        w.push((v & 0xff) as u8);
        w.push(((v >> 8) & 0xff) as u8);
        w.push(((v >> 16) & 0xff) as u8);
        w.push(((v >> 24) & 0xff) as u8);
        w.push(((v >> 32) & 0xff) as u8);
        w.push(((v >> 40) & 0xff) as u8);
        w.push(((v >> 48) & 0xff) as u8);
        w.push(((v >> 56) & 0xff) as u8);
        proof {
            assert(w@ =~= old(w)@ + self.serialized());
        }
    }
}

impl Writable for i64 {
    open spec fn serialized(&self) -> Seq<u8> {
        crate::parse::spec_i64_le(*self)
    }

    fn write_to(&self, w: &mut Vec<u8>) {
        let v = #[verifier::truncate] (*self as u64);
        v.write_to(w);
        proof {
            assert(v == *self as u64);
            assert(w@ =~= old(w)@ + self.serialized());
        }
    }
}

impl Writable for bool {
    /// Encoded as a single byte, 1 for true and 0 for false.
    open spec fn serialized(&self) -> Seq<u8> {
        seq![if *self { 1u8 } else { 0u8 }]
    }

    fn write_to(&self, w: &mut Vec<u8>) {
        let b: u8 = if *self { 1 } else { 0 };
        w.push(b);
        proof {
            assert(w@ =~= old(w)@ + self.serialized());
        }
    }
}

impl StaticDataSize for u8 {
    open spec fn spec_static_size() -> nat {
        1
    }

    proof fn lemma_static_size(&self) {
    }

    fn static_data_size() -> (r: usize) {
        1
    }
}

impl DataSize for u8 {
    fn data_size(&self) -> (r: usize) {
        1
    }
}

impl StaticDataSize for i8 {
    open spec fn spec_static_size() -> nat {
        1
    }

    proof fn lemma_static_size(&self) {
    }

    fn static_data_size() -> (r: usize) {
        1
    }
}

impl DataSize for i8 {
    fn data_size(&self) -> (r: usize) {
        1
    }
}

impl StaticDataSize for u16 {
    open spec fn spec_static_size() -> nat {
        2
    }

    proof fn lemma_static_size(&self) {
    }

    fn static_data_size() -> (r: usize) {
        2
    }
}

impl DataSize for u16 {
    fn data_size(&self) -> (r: usize) {
        2
    }
}

impl StaticDataSize for i16 {
    open spec fn spec_static_size() -> nat {
        2
    }

    proof fn lemma_static_size(&self) {
    }

    fn static_data_size() -> (r: usize) {
        2
    }
}

impl DataSize for i16 {
    fn data_size(&self) -> (r: usize) {
        2
    }
}

impl StaticDataSize for u32 {
    open spec fn spec_static_size() -> nat {
        4
    }

    proof fn lemma_static_size(&self) {
    }

    fn static_data_size() -> (r: usize) {
        4
    }
}

impl DataSize for u32 {
    fn data_size(&self) -> (r: usize) {
        4
    }
}

impl StaticDataSize for i32 {
    open spec fn spec_static_size() -> nat {
        4
    }

    proof fn lemma_static_size(&self) {
    }

    fn static_data_size() -> (r: usize) {
        4
    }
}

impl DataSize for i32 {
    fn data_size(&self) -> (r: usize) {
        4
    }
}

impl StaticDataSize for u64 {
    open spec fn spec_static_size() -> nat {
        8
    }

    proof fn lemma_static_size(&self) {
    }

    fn static_data_size() -> (r: usize) {
        8
    }
}

impl DataSize for u64 {
    fn data_size(&self) -> (r: usize) {
        8
    }
}

impl StaticDataSize for i64 {
    open spec fn spec_static_size() -> nat {
        8
    }

    proof fn lemma_static_size(&self) {
    }

    fn static_data_size() -> (r: usize) {
        8
    }
}

impl DataSize for i64 {
    fn data_size(&self) -> (r: usize) {
        8
    }
}

impl StaticDataSize for bool {
    open spec fn spec_static_size() -> nat {
        1
    }

    proof fn lemma_static_size(&self) {
    }

    fn static_data_size() -> (r: usize) {
        1
    }
}

impl DataSize for bool {
    fn data_size(&self) -> (r: usize) {
        1
    }
}

} // verus!

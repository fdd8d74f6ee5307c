//! Byte strings stored behind a 2-byte length prefix. The bytes carry text
//! in a single-byte Windows code page; the core keeps them verbatim.
use crate::parse::{le_u16, spec_u16_le, spec_u16_of_le, take, ParseError};
use crate::util::{DataSize, Writable};
use vstd::prelude::*;

verus! {

/// A byte string encoded as a little-endian `u16` length followed by
/// exactly that many bytes.
#[derive(Debug, Clone)]
pub struct Windows1252String16 {
    pub value: Vec<u8>,
}

impl Windows1252String16 {
    /// The bytes must fit the 2-byte length prefix.
    pub open spec fn wf(&self) -> bool {
        self.value@.len() <= 0xFFFF
    }

    /// Wraps raw string bytes.
    pub fn new(value: Vec<u8>) -> (r: Windows1252String16)
        ensures
            r.value@ == value@,
    {
        Windows1252String16 { value }
    }

    /// Reads the length prefix, then exactly that many bytes. Succeeds if
    /// and only if the input holds the whole string; the consumed bytes are
    /// exactly the string's byte image.
    pub fn parse(data: &[u8]) -> (r: Result<(&[u8], Windows1252String16), ParseError>)
        ensures
            r matches Ok((rem, s)) ==> {
                let n = 2 + spec_u16_of_le(data@.subrange(0, 2)) as int;
                &&& s.wf()
                &&& data@ == s.serialized() + rem@
                &&& s.serialized() == data@.take(n)
                &&& s.value@ == data@.subrange(2, n)
                &&& rem@ == data@.skip(n)
            },
            (r is Ok) <==> (data@.len() >= 2 && data@.len() >= 2 + spec_u16_of_le(
                data@.subrange(0, 2),
            ) as int),
            r matches Err(e) ==> e is UnexpectedEOF,
    {
        let (rest, length) = match le_u16(data) {
            Ok(p) => p,
            Err(e) => {
                return Err(e);
            },
        };
        proof {
            assert(data@.take(2) =~= data@.subrange(0, 2));
        }
        let (rest, bytes) = match take(rest, length as usize) {
            Ok(p) => p,
            Err(e) => {
                return Err(e);
            },
        };
        let s = Windows1252String16 { value: vstd::slice::slice_to_vec(bytes) };
        proof {
            let n = 2 + length as int;
            crate::parse::lemma_u16_le_bytes_round_trip(data@.subrange(0, 2));
            assert(s.serialized() =~= data@.take(n));
            assert(s.value@ =~= data@.subrange(2, n));
            assert(rest@ =~= data@.skip(n));
            assert(data@ =~= data@.take(n) + data@.skip(n));
        }
        Ok((rest, s))
    }
}

impl Writable for Windows1252String16 {
    /// The length, little-endian, then the bytes.
    open spec fn serialized(&self) -> Seq<u8> {
        spec_u16_le(self.value@.len() as u16) + self.value@
    }

    fn write_to(&self, w: &mut Vec<u8>) {
        let len16 = #[verifier::truncate] (self.value.len() as u16);
        len16.write_to(w);
        let ghost mid = w@;
        let mut j: usize = 0;
        while j < self.value.len()
            invariant
                0 <= j <= self.value@.len(),
                w@ == mid + self.value@.take(j as int),
            decreases self.value@.len() - j,
        {
            w.push(self.value[j]);
            proof {
                assert(self.value@.take(j + 1) =~= self.value@.take(j as int).push(
                    self.value@[j as int],
                ));
            }
            j += 1;
        }
        proof {
            assert(self.value@.take(self.value@.len() as int) =~= self.value@);
            assert(w@ =~= old(w)@ + self.serialized());
        }
    }
}

impl DataSize for Windows1252String16 {
    fn data_size(&self) -> (r: usize) {
        2 + self.value.len()
    }
}

} // verus!

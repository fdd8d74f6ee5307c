//! Byte strings stored with a trailing zero sentinel.
use crate::parse::ParseError;
use crate::util::{DataSize, Writable};
use vstd::prelude::*;

verus! {

/// A byte string encoded as its bytes followed by one zero byte; the bytes
/// themselves never contain the sentinel.
#[derive(Debug, Clone)]
pub struct NullTerminatedString {
    pub value: Vec<u8>,
}

impl NullTerminatedString {
    /// No byte of the value is the sentinel.
    pub open spec fn wf(&self) -> bool {
        forall|j: int| 0 <= j < self.value@.len() ==> self.value@[j] != 0
    }

    /// Wraps bytes that must not contain the sentinel.
    pub fn new(value: Vec<u8>) -> (r: NullTerminatedString)
        ensures
            r.value@ == value@,
    {
        NullTerminatedString { value }
    }

    /// Reads bytes up to the first sentinel, then consumes the sentinel.
    /// Succeeds if and only if a sentinel occurs; the consumed bytes are
    /// exactly the string's byte image.
    pub fn parse(data: &[u8]) -> (r: Result<(&[u8], NullTerminatedString), ParseError>)
        ensures
            r matches Ok((rem, s)) ==> {
                let n = s.value@.len() as int;
                &&& s.wf()
                &&& data@ == s.serialized() + rem@
                &&& s.serialized() == data@.take(n + 1)
                &&& s.value@ == data@.take(n)
                &&& data@[n] == 0
                &&& rem@ == data@.skip(n + 1)
            },
            (r is Ok) <==> (exists|j: int| 0 <= j < data@.len() && data@[j] == 0),
            r matches Err(e) ==> e is UnexpectedEOF,
    {
        let (rest, taken) = match crate::parse::take_until(data, 0) {
            Ok(p) => p,
            Err(e) => {
                return Err(e);
            },
        };
        // the remainder starts with the sentinel; consume exactly it
        let (rest, _sentinel) = match crate::parse::single(rest) {
            Ok(p) => p,
            Err(e) => {
                return Err(e);
            },
        };
        let s = NullTerminatedString { value: vstd::slice::slice_to_vec(taken) };
        proof {
            let n = s.value@.len() as int;
            assert(s.serialized() =~= data@.take(n + 1));
            assert(rest@ =~= data@.skip(n + 1));
            assert(data@ =~= data@.take(n + 1) + data@.skip(n + 1));
        }
        Ok((rest, s))
    }
}

impl Writable for NullTerminatedString {
    /// The bytes, then one zero sentinel.
    open spec fn serialized(&self) -> Seq<u8> {
        self.value@ + seq![0u8]
    }

    fn write_to(&self, w: &mut Vec<u8>) {
        let ghost orig = w@;
        let mut j: usize = 0;
        while j < self.value.len()
            invariant
                0 <= j <= self.value@.len(),
                w@ == orig + self.value@.take(j as int),
            decreases self.value@.len() - j,
        {
            w.push(self.value[j]);
            proof {
                assert(self.value@.take(j + 1) =~= self.value@.take(j as int).push(
                    self.value@[j as int],
                ));
            }
            j += 1;
        }
        w.push(0);
        proof {
            assert(self.value@.take(self.value@.len() as int) =~= self.value@);
            assert(w@ =~= orig + self.serialized());
        }
    }
}

impl DataSize for NullTerminatedString {
    fn data_size(&self) -> (r: usize) {
        self.value.len() + 1
    }
}

/// Encoding then decoding restores the string: a well-formed string's image
/// is its bytes plus one final sentinel, the sentinel occurs nowhere
/// earlier, and the image's prefix of the string's length is the string
/// itself. Together with `parse`'s contract this says a parse of the image
/// returns the string and consumes the whole image.
pub proof fn lemma_null_terminated_round_trip(s: NullTerminatedString)
    requires
        s.wf(),
    ensures
        s.serialized().len() == s.value@.len() + 1,
        s.serialized()[s.value@.len() as int] == 0,
        forall|j: int| 0 <= j < s.value@.len() ==> s.serialized()[j] != 0,
        s.serialized().take(s.value@.len() as int) == s.value@,
{
    assert(s.serialized().take(s.value@.len() as int) =~= s.value@);
}

} // verus!

//! Byte strings that fill their whole surrounding chunk: no length of
//! their own, no terminator.
use crate::parse::ParseError;
use crate::util::{DataSize, Writable};
use vstd::prelude::*;

verus! {

/// A byte string encoded as just its bytes; the surrounding chunk's length
/// delimits it.
#[derive(Debug, Clone)]
pub struct FullString {
    pub value: Vec<u8>,
}

impl FullString {
    /// Wraps raw string bytes.
    pub fn new(value: Vec<u8>) -> (r: FullString)
        ensures
            r.value@ == value@,
    {
        FullString { value }
    }

    /// Takes the whole input as the string; never fails, consumes all.
    pub fn parse(data: &[u8]) -> (r: Result<(&[u8], FullString), ParseError>)
        ensures
            r matches Ok((rem, s)) ==> {
                &&& s.value@ == data@
                &&& s.serialized() == data@
                &&& rem@.len() == 0
            },
            r is Ok,
    {
        let s = FullString { value: vstd::slice::slice_to_vec(data) };
        let rest = vstd::slice::slice_subrange(data, data.len(), data.len());
        proof {
            assert(rest@ =~= Seq::<u8>::empty());
        }
        Ok((rest, s))
    }
}

impl Writable for FullString {
    /// Just the bytes.
    open spec fn serialized(&self) -> Seq<u8> {
        self.value@
    }

    fn write_to(&self, w: &mut Vec<u8>) {
        let ghost orig = w@;
        let mut j: usize = 0;
        while j < self.value.len()
            invariant
                0 <= j <= self.value@.len(),
                w@ == orig + self.value@.take(j as int),
            decreases self.value@.len() - j,
        {
            w.push(self.value[j]);
            proof {
                assert(self.value@.take(j + 1) =~= self.value@.take(j as int).push(
                    self.value@[j as int],
                ));
            }
            j += 1;
        }
        proof {
            assert(self.value@.take(self.value@.len() as int) =~= self.value@);
        }
    }
}

impl DataSize for FullString {
    fn data_size(&self) -> (r: usize) {
        self.value.len()
    }
}

} // verus!

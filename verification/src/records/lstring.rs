//! Localized strings: a 32-bit index into an external string table.
use crate::parse::{le_u32, spec_u32_le, spec_u32_of_le, Parse, ParseError};
use crate::util::{DataSize, StaticDataSize, Writable};
use vstd::prelude::*;

verus! {

/// An index into the string table; when the file is not localized the same
/// four bytes hold string data instead, which the core keeps verbatim.
#[derive(Debug, Copy, Clone, PartialEq, Eq, Structural)]
pub struct LString {
    /// An index into the string table.
    pub index: u32,
}

impl Writable for LString {
    open spec fn serialized(&self) -> Seq<u8> {
        spec_u32_le(self.index)
    }

    fn write_to(&self, w: &mut Vec<u8>) {
        self.index.write_to(w);
    }
}

impl StaticDataSize for LString {
    open spec fn spec_static_size() -> nat {
        4
    }

    proof fn lemma_static_size(&self) {
    }

    fn static_data_size() -> (r: usize) {
        4
    }
}

impl DataSize for LString {
    fn data_size(&self) -> (r: usize) {
        4
    }
}

impl Parse for LString {
    open spec fn spec_size() -> nat {
        4
    }

    open spec fn spec_valid(s: Seq<u8>) -> bool {
        true
    }

    open spec fn spec_decode(s: Seq<u8>) -> LString {
        LString { index: spec_u32_of_le(s) }
    }

    proof fn lemma_encode_size(v: LString) {
        crate::parse::lemma_u32_le_round_trip(v.index);
    }

    proof fn lemma_round_trip(v: LString) {
        crate::parse::lemma_u32_le_round_trip(v.index);
    }

    proof fn lemma_bytes_round_trip(s: Seq<u8>) {
        crate::parse::lemma_u32_le_bytes_round_trip(s);
    }

    fn parse(data: &[u8]) -> (r: Result<(&[u8], Self), ParseError>) {
        match le_u32(data) {
            Ok((rem, index)) => Ok((rem, LString { index })),
            Err(e) => Err(e),
        }
    }
}

} // verus!

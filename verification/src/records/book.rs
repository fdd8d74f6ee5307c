//! Typed pieces of book records: the data flag word.
use crate::parse::{Parse, ParseError};
use crate::util::{DataSize, StaticDataSize, Writable};
use vstd::prelude::*;

verus! {

/// Book data flags.
#[derive(Debug, Copy, Clone, PartialEq, Eq, Structural)]
pub struct DATAFlags {
    pub flags: u8,
}

impl DATAFlags {
}

impl Writable for DATAFlags {
    open spec fn serialized(&self) -> Seq<u8> {
        seq![self.flags]
    }

    fn write_to(&self, w: &mut Vec<u8>) {
        self.flags.write_to(w);
    }
}

impl StaticDataSize for DATAFlags {
    open spec fn spec_static_size() -> nat {
        1
    }

    proof fn lemma_static_size(&self) {
    }

    fn static_data_size() -> (r: usize) {
        1
    }
}

impl DataSize for DATAFlags {
    fn data_size(&self) -> (r: usize) {
        1
    }
}

impl Parse for DATAFlags {
    open spec fn spec_size() -> nat {
        1
    }

    open spec fn spec_valid(s: Seq<u8>) -> bool {
        true
    }

    open spec fn spec_decode(s: Seq<u8>) -> DATAFlags {
        DATAFlags { flags: s[0] }
    }

    proof fn lemma_encode_size(v: DATAFlags) {
    }

    proof fn lemma_round_trip(v: DATAFlags) {
    }

    proof fn lemma_bytes_round_trip(s: Seq<u8>) {
        assert(Self::spec_decode(s).serialized() =~= s);
    }

    fn parse(data: &[u8]) -> (r: Result<(&[u8], Self), ParseError>) {
        match crate::parse::single(data) {
            Ok((rem, flags)) => Ok((rem, Self { flags })),
            Err(e) => Err(e),
        }
    }
}

} // verus!

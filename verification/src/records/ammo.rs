//! Typed pieces of ammunition records: the data field's flag word.
use crate::parse::{Parse, ParseError};
use crate::util::{DataSize, StaticDataSize, Writable};
use vstd::prelude::*;

verus! {

/// Ammunition data flags.
#[derive(Debug, Copy, Clone, PartialEq, Eq, Structural)]
pub struct DATAFlags {
    pub flags: u32,
}

impl DATAFlags {

    /// Whether the `0b1` bit is set.
    pub fn ignores_weapon_resistance(&self) -> (r: bool)
        ensures
            r == ((self.flags & 0b1) != 0),
    {
        (self.flags & 0b1) != 0
    }

    /// Whether the `0b10` bit is set.
    pub fn non_playable(&self) -> (r: bool)
        ensures
            r == ((self.flags & 0b10) != 0),
    {
        (self.flags & 0b10) != 0
    }

    /// Whether the `0b100` bit is set.
    pub fn is_arrow(&self) -> (r: bool)
        ensures
            r == ((self.flags & 0b100) != 0),
    {
        (self.flags & 0b100) != 0
    }

    /// Whether the `0b100` bits are clear.
    pub fn is_bolt(&self) -> (r: bool)
        ensures
            r == ((self.flags & 0b100) == 0),
    {
        (self.flags & 0b100) == 0
    }
}

impl Writable for DATAFlags {
    open spec fn serialized(&self) -> Seq<u8> {
        crate::parse::spec_u32_le(self.flags)
    }

    fn write_to(&self, w: &mut Vec<u8>) {
        self.flags.write_to(w);
    }
}

impl StaticDataSize for DATAFlags {
    open spec fn spec_static_size() -> nat {
        4
    }

    proof fn lemma_static_size(&self) {
    }

    fn static_data_size() -> (r: usize) {
        4
    }
}

impl DataSize for DATAFlags {
    fn data_size(&self) -> (r: usize) {
        4
    }
}

impl Parse for DATAFlags {
    open spec fn spec_size() -> nat {
        4
    }

    open spec fn spec_valid(s: Seq<u8>) -> bool {
        true
    }

    open spec fn spec_decode(s: Seq<u8>) -> DATAFlags {
        DATAFlags { flags: crate::parse::spec_u32_of_le(s) }
    }

    proof fn lemma_encode_size(v: DATAFlags) {
        crate::parse::lemma_u32_le_round_trip(v.flags);
    }

    proof fn lemma_round_trip(v: DATAFlags) {
        crate::parse::lemma_u32_le_round_trip(v.flags);
    }

    proof fn lemma_bytes_round_trip(s: Seq<u8>) {
        crate::parse::lemma_u32_le_bytes_round_trip(s);
    }

    fn parse(data: &[u8]) -> (r: Result<(&[u8], Self), ParseError>) {
        match crate::parse::le_u32(data) {
            Ok((rem, flags)) => Ok((rem, Self { flags })),
            Err(e) => Err(e),
        }
    }
}

} // verus!

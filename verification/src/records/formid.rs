//! Form identifiers: 32-bit references to other records, kept opaque.
use crate::parse::{le_u32, spec_u32_le, spec_u32_of_le, Parse, ParseError};
use crate::util::{DataSize, StaticDataSize, Writable};
use vstd::prelude::*;

verus! {

/// A 32-bit reference to another record by its form identifier; the core
/// performs no cross-record validation on it.
#[derive(Debug, Copy, Clone, PartialEq, Eq, Structural)]
pub struct FormId {
    pub id: u32,
}

impl FormId {
    /// Wraps a raw identifier.
    pub fn new(id: u32) -> (r: FormId)
        ensures
            r.id == id,
    {
        FormId { id }
    }

    /// Reads the identifier from its four little-endian bytes.
    pub fn from_bytes(id: [u8; 4]) -> (r: FormId)
        ensures
            r.id == spec_u32_of_le(id@),
    {
        let v = (id[0] as u32) | ((id[1] as u32) << 8) | ((id[2] as u32) << 16) | ((
        id[3] as u32) << 24);
        FormId { id: v }
    }

    /// The identifier's four little-endian bytes.
    pub fn as_bytes(&self) -> (r: [u8; 4])
        ensures
            r@ == spec_u32_le(self.id),
    {
        let v = self.id;
        let r = [(v & 0xff) as u8, ((v >> 8) & 0xff) as u8, ((v >> 16) & 0xff) as u8, ((v >> 24)
            & 0xff) as u8];
        proof {
            assert(r@ =~= spec_u32_le(v));
        }
        r
    }
}

impl Writable for FormId {
    open spec fn serialized(&self) -> Seq<u8> {
        spec_u32_le(self.id)
    }

    fn write_to(&self, w: &mut Vec<u8>) {
        self.id.write_to(w);
    }
}

impl StaticDataSize for FormId {
    open spec fn spec_static_size() -> nat {
        4
    }

    proof fn lemma_static_size(&self) {
    }

    fn static_data_size() -> (r: usize) {
        4
    }
}

impl DataSize for FormId {
    fn data_size(&self) -> (r: usize) {
        4
    }
}

impl Parse for FormId {
    open spec fn spec_size() -> nat {
        4
    }

    open spec fn spec_valid(s: Seq<u8>) -> bool {
        true
    }

    open spec fn spec_decode(s: Seq<u8>) -> FormId {
        FormId { id: spec_u32_of_le(s) }
    }

    proof fn lemma_encode_size(v: FormId) {
        crate::parse::lemma_u32_le_round_trip(v.id);
    }

    proof fn lemma_round_trip(v: FormId) {
        crate::parse::lemma_u32_le_round_trip(v.id);
    }

    proof fn lemma_bytes_round_trip(s: Seq<u8>) {
        crate::parse::lemma_u32_le_bytes_round_trip(s);
    }

    fn parse(data: &[u8]) -> (r: Result<(&[u8], Self), ParseError>) {
        match le_u32(data) {
            Ok((rem, id)) => Ok((rem, FormId { id })),
            Err(e) => Err(e),
        }
    }
}

} // verus!

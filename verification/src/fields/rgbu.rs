//! A small colour value shared by several concrete fields.
use crate::fields::{spec_field_image, FromField, FromFieldError, GeneralField, write_field_header};
use crate::parse::{
    spec_i16_le, spec_i16_of_le, spec_u16_le, spec_u16_of_le, spec_u32_le, spec_u32_of_le,
    Parse, ParseError,
};
use crate::records::common::StaticTypeNamed;
use crate::util::{DataSize, StaticDataSize, Writable};
use vstd::prelude::*;

verus! {

/// A red-green-blue triple with one unused trailing byte, as several
/// colour-bearing fields store it.
#[derive(Debug, Copy, Clone, PartialEq, Eq, Structural)]
pub struct RGBU {
    pub red: u8,
    pub green: u8,
    pub blue: u8,
    /// Kept verbatim; observed as zero upstream
    pub unused: u8,
}

impl RGBU {
    /// Builds the colour from its four bytes.
    pub fn new(red: u8, green: u8, blue: u8, unused: u8) -> (r: RGBU)
        ensures
            r == (RGBU { red, green, blue, unused }),
    {
        RGBU { red, green, blue, unused }
    }
}

impl Writable for RGBU {
    open spec fn serialized(&self) -> Seq<u8> {
        seq![self.red, self.green, self.blue, self.unused]
    }

    fn write_to(&self, w: &mut Vec<u8>) {
        w.push(self.red);
        w.push(self.green);
        w.push(self.blue);
        w.push(self.unused);
        proof {
            assert(w@ =~= old(w)@ + self.serialized());
        }
    }
}

impl StaticDataSize for RGBU {
    open spec fn spec_static_size() -> nat {
        4
    }

    proof fn lemma_static_size(&self) {
    }

    fn static_data_size() -> (r: usize) {
        4
    }
}

impl DataSize for RGBU {
    fn data_size(&self) -> (r: usize) {
        4
    }
}

impl Parse for RGBU {
    open spec fn spec_size() -> nat {
        4
    }

    open spec fn spec_valid(s: Seq<u8>) -> bool {
        true
    }

    open spec fn spec_decode(s: Seq<u8>) -> RGBU {
        RGBU { red: s[0], green: s[1], blue: s[2], unused: s[3] }
    }

    proof fn lemma_encode_size(v: RGBU) {
    }

    proof fn lemma_round_trip(v: RGBU) {
    }

    proof fn lemma_bytes_round_trip(s: Seq<u8>) {
        assert(Self::spec_decode(s).serialized() =~= s);
    }

    fn parse(data: &[u8]) -> (r: Result<(&[u8], Self), ParseError>) {
        if data.len() < 4 {
            return Err(ParseError::UnexpectedEOF);
        }
        let red = *vstd::slice::slice_index_get(data, 0);
        let green = *vstd::slice::slice_index_get(data, 1);
        let blue = *vstd::slice::slice_index_get(data, 2);
        let unused = *vstd::slice::slice_index_get(data, 3);
        let rest = vstd::slice::slice_subrange(data, 4, data.len());
        Ok((rest, RGBU { red, green, blue, unused }))
    }
}

} // verus!

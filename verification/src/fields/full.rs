//! The in-game-name field.
use crate::fields::{spec_field_image, write_field_header, FromField, FromFieldError, GeneralField};
use crate::parse::{
    spec_i16_le, spec_i16_of_le, spec_u16_le, spec_u16_of_le, spec_u32_le, spec_u32_of_le, Parse,
    ParseError,
};
use crate::records::common::StaticTypeNamed;
use crate::util::{DataSize, StaticDataSize, Writable};
use vstd::prelude::*;

verus! {

/// In-game name: an index into the localized string table.
#[derive(Debug, Copy, Clone, PartialEq, Eq, Structural)]
pub struct FULL {
    /// Localized name
    pub name: crate::records::lstring::LString,
}

impl FULL {
    /// This field's body bytes: its components' images, in order.
    pub open spec fn spec_body(&self) -> Seq<u8> {
        spec_u32_le(self.name.index)
    }
}

impl StaticTypeNamed for FULL {
    open spec fn spec_static_tag_name() -> Seq<u8> {
        seq![0x46u8, 0x55u8, 0x4cu8, 0x4cu8]
    }

    fn static_tag_name() -> (r: [u8; 4]) {
        let r = [0x46u8, 0x55u8, 0x4cu8, 0x4cu8];
        proof {
            assert(r@ =~= Self::spec_static_tag_name());
        }
        r
    }
}

impl Writable for FULL {
    open spec fn serialized(&self) -> Seq<u8> {
        spec_field_image(Self::spec_static_tag_name(), self.spec_body())
    }

    fn write_to(&self, w: &mut Vec<u8>) {
        let tag = Self::static_tag_name();
        write_field_header(&tag, 4, w);
        self.name.index.write_to(w);
        proof {
            assert(w@ =~= old(w)@ + self.serialized());
        }
    }
}

impl DataSize for FULL {
    fn data_size(&self) -> (r: usize) {
        10
    }
}

impl FromField for FULL {
    /// The body must be exactly 4 bytes.
    open spec fn spec_accepts(field: &GeneralField) -> bool {
        field.data@.len() == 4
    }

    /// Each component is the little-endian reading of its bytes.
    open spec fn spec_is_interp(field: &GeneralField, v: &FULL) -> bool {
        v.name.index == spec_u32_of_le(field.data@.subrange(0, 4))
    }

    open spec fn spec_reject_err(field: &GeneralField) -> FromFieldError {
        if field.data@.len() != 4 {
            FromFieldError::ParseError(
                ParseError::ExpectedExact {
                    expected: 4 as usize,
                    found: field.data@.len() as usize,
                },
            )
        } else {
            FromFieldError::ParseError(ParseError::InvalidEnumerationValue)
        }
    }

    fn from_field(field: &GeneralField) -> (r: Result<Self, FromFieldError>) {
        let n = field.data.len();
        if n != 4 {
            return Err(
                FromFieldError::ParseError(ParseError::ExpectedExact { expected: 4, found: n }),
            );
        }
        let body: &[u8] = field.data.as_slice();
        let (rest0, c_name) = match crate::parse::le_u32(body) {
            Ok(p) => p,
            Err(e) => {
                return Err(FromFieldError::ParseError(e));
            },
        };
        proof {
            assert(body@.take(4) =~= field.data@.subrange(0, 4));
            assert(rest0@ =~= field.data@.skip(4));
        }
        let v = FULL { name: crate::records::lstring::LString { index: c_name } };
        proof {
            crate::parse::lemma_u32_le_bytes_round_trip(field.data@.subrange(0, 4));
            assert(v.spec_body() =~= field.data@);
            assert(v.serialized() =~= field.serialized());
        }
        Ok(v)
    }
}


} // verus!

//! The reusable single-reference field shape.
use crate::fields::{spec_field_image, write_field_header, FromField, FromFieldError, GeneralField};
use crate::parse::{
    spec_i16_le, spec_i16_of_le, spec_u16_le, spec_u16_of_le, spec_u32_le, spec_u32_of_le, Parse,
    ParseError,
};
use crate::records::common::StaticTypeNamed;
use crate::util::{DataSize, StaticDataSize, Writable};
use vstd::prelude::*;

verus! {

/// A bare form-identifier field, the reusable shape every reference field takes.
#[derive(Debug, Copy, Clone, PartialEq, Eq, Structural)]
pub struct Test {
    /// The referenced record
    pub formid: crate::records::formid::FormId,
}

impl Test {
    /// This field's body bytes: its components' images, in order.
    pub open spec fn spec_body(&self) -> Seq<u8> {
        spec_u32_le(self.formid.id)
    }
}

impl StaticTypeNamed for Test {
    open spec fn spec_static_tag_name() -> Seq<u8> {
        seq![0x54u8, 0x65u8, 0x73u8, 0x74u8]
    }

    fn static_tag_name() -> (r: [u8; 4]) {
        let r = [0x54u8, 0x65u8, 0x73u8, 0x74u8];
        proof {
            assert(r@ =~= Self::spec_static_tag_name());
        }
        r
    }
}

impl Writable for Test {
    open spec fn serialized(&self) -> Seq<u8> {
        spec_field_image(Self::spec_static_tag_name(), self.spec_body())
    }

    fn write_to(&self, w: &mut Vec<u8>) {
        let tag = Self::static_tag_name();
        write_field_header(&tag, 4, w);
        self.formid.id.write_to(w);
        proof {
            assert(w@ =~= old(w)@ + self.serialized());
        }
    }
}

impl DataSize for Test {
    fn data_size(&self) -> (r: usize) {
        10
    }
}

impl FromField for Test {
    /// The body must be exactly 4 bytes.
    open spec fn spec_accepts(field: &GeneralField) -> bool {
        field.data@.len() == 4
    }

    /// Each component is the little-endian reading of its bytes.
    open spec fn spec_is_interp(field: &GeneralField, v: &Test) -> bool {
        v.formid.id == spec_u32_of_le(field.data@.subrange(0, 4))
    }

    open spec fn spec_reject_err(field: &GeneralField) -> FromFieldError {
        if field.data@.len() != 4 {
            FromFieldError::ParseError(
                ParseError::ExpectedExact {
                    expected: 4 as usize,
                    found: field.data@.len() as usize,
                },
            )
        } else {
            FromFieldError::ParseError(ParseError::InvalidEnumerationValue)
        }
    }

    fn from_field(field: &GeneralField) -> (r: Result<Self, FromFieldError>) {
        let n = field.data.len();
        if n != 4 {
            return Err(
                FromFieldError::ParseError(ParseError::ExpectedExact { expected: 4, found: n }),
            );
        }
        let body: &[u8] = field.data.as_slice();
        let (rest0, c_formid) = match crate::parse::le_u32(body) {
            Ok(p) => p,
            Err(e) => {
                return Err(FromFieldError::ParseError(e));
            },
        };
        proof {
            assert(body@.take(4) =~= field.data@.subrange(0, 4));
            assert(rest0@ =~= field.data@.skip(4));
        }
        let v = Test { formid: crate::records::formid::FormId { id: c_formid } };
        proof {
            crate::parse::lemma_u32_le_bytes_round_trip(field.data@.subrange(0, 4));
            assert(v.spec_body() =~= field.data@);
            assert(v.serialized() =~= field.serialized());
        }
        Ok(v)
    }
}


impl Test {
    /// Wraps a reference.
    pub fn new(formid: crate::records::formid::FormId) -> (r: Test)
        ensures
            r.formid == formid,
    {
        Test { formid }
    }
}

} // verus!

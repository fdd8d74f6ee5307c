//! The editor-identifier field most records carry.
use crate::fields::{spec_field_image, write_field_header, FromField, FromFieldError, GeneralField};
use crate::parse::{
    spec_i16_le, spec_i16_of_le, spec_u16_le, spec_u16_of_le, spec_u32_le, spec_u32_of_le, Parse,
    ParseError,
};
use crate::records::common::StaticTypeNamed;
use crate::util::{DataSize, StaticDataSize, Writable};
use vstd::prelude::*;

verus! {

/// Editor identifier: a zero-terminated name used by editing tools.
#[derive(Debug, Clone)]
pub struct EDID {
    /// Editor id
    pub id: crate::records::null_terminated_string::NullTerminatedString,
}

impl StaticTypeNamed for EDID {
    open spec fn spec_static_tag_name() -> Seq<u8> {
        seq![0x45u8, 0x44u8, 0x49u8, 0x44u8]
    }

    fn static_tag_name() -> (r: [u8; 4]) {
        let r = [0x45u8, 0x44u8, 0x49u8, 0x44u8];
        proof {
            assert(r@ =~= Self::spec_static_tag_name());
        }
        r
    }
}

impl Writable for EDID {
    open spec fn serialized(&self) -> Seq<u8> {
        spec_field_image(Self::spec_static_tag_name(), self.id.serialized())
    }

    fn write_to(&self, w: &mut Vec<u8>) {
        let tag = Self::static_tag_name();
        let body_len = self.id.data_size();
        if body_len <= 0xFFFF {
            write_field_header(&tag, body_len, w);
        } else {
            // unreachable for bodies that fit their 2-byte prefix; keep the
            // truncating image the length field has either way
            let len16 = #[verifier::truncate] (body_len as u16);
            write_field_header(&tag, (len16 as usize), w);
            proof {
                assert((len16 as usize) as u16 == (self.id.serialized().len() as u16));
            }
        }
        self.id.write_to(w);
        proof {
            assert(w@ =~= old(w)@ + self.serialized());
        }
    }
}

impl DataSize for EDID {
    fn data_size(&self) -> (r: usize) {
        6 + self.id.data_size()
    }
}

impl FromField for EDID {
    /// The body must be one whole zero-terminated string: the final byte is
    /// the sentinel and no earlier byte is.
    open spec fn spec_accepts(field: &GeneralField) -> bool {
        &&& field.data@.len() >= 1
    &&& field.data@[field.data@.len() - 1] == 0
    &&& forall|j: int| 0 <= j < field.data@.len() - 1 ==> field.data@[j] != 0
    }

    /// The value is the body without its final sentinel.
    open spec fn spec_is_interp(field: &GeneralField, v: &EDID) -> bool {
        v.id.value@ == field.data@.take(field.data@.len() - 1)
    }

    /// A body with no sentinel ends too early; one with bytes after the
    /// first sentinel has trailing data.
    open spec fn spec_reject_err(field: &GeneralField) -> FromFieldError {
        if forall|j: int| 0 <= j < field.data@.len() ==> field.data@[j] != 0 {
            FromFieldError::ParseError(ParseError::UnexpectedEOF)
        } else {
            FromFieldError::ParseError(ParseError::ExpectedEOF)
        }
    }

    fn from_field(field: &GeneralField) -> (r: Result<Self, FromFieldError>) {
        let body: &[u8] = field.data.as_slice();
        let (rest, s) = match crate::records::null_terminated_string::NullTerminatedString::parse(
            body,
        ) {
            Ok(p) => p,
            Err(e) => {
                return Err(FromFieldError::ParseError(e));
            },
        };
        if rest.len() > 0 {
            return Err(FromFieldError::ParseError(ParseError::ExpectedEOF));
        }
        let v = EDID { id: s };
        proof {
            assert(field.data@.take(field.data@.len() as int) =~= field.data@);
            assert(v.serialized() =~= field.serialized());
        }
        Ok(v)
    }
}


} // verus!

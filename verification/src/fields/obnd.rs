//! The object-bounds field every placeable record carries.
use crate::fields::{spec_field_image, FromField, FromFieldError, GeneralField, write_field_header};
use crate::parse::{
    spec_i16_le, spec_i16_of_le, spec_u16_le, spec_u16_of_le, spec_u32_le, spec_u32_of_le,
    Parse, ParseError,
};
use crate::records::common::StaticTypeNamed;
use crate::util::{DataSize, StaticDataSize, Writable};
use vstd::prelude::*;

verus! {

/// Object bounds: two opposite corners of a box, six signed 16-bit coordinates.
#[derive(Debug, Copy, Clone, PartialEq, Eq, Structural)]
pub struct OBND {
    /// First corner, x
    pub x1: i16,
    /// First corner, y
    pub y1: i16,
    /// First corner, z
    pub z1: i16,
    /// Second corner, x
    pub x2: i16,
    /// Second corner, y
    pub y2: i16,
    /// Second corner, z
    pub z2: i16,
}

impl OBND {
    /// This field's body bytes: its components' images, in order.
    pub open spec fn spec_body(&self) -> Seq<u8> {
        spec_i16_le(self.x1) + spec_i16_le(self.y1) + spec_i16_le(self.z1) + spec_i16_le(self.x2) + spec_i16_le(self.y2) + spec_i16_le(self.z2)
    }
}

impl StaticTypeNamed for OBND {
    open spec fn spec_static_tag_name() -> Seq<u8> {
        seq![0x4fu8, 0x42u8, 0x4eu8, 0x44u8]
    }

    fn static_tag_name() -> (r: [u8; 4]) {
        let r = [0x4fu8, 0x42u8, 0x4eu8, 0x44u8];
        proof {
            assert(r@ =~= Self::spec_static_tag_name());
        }
        r
    }
}

impl Writable for OBND {
    open spec fn serialized(&self) -> Seq<u8> {
        spec_field_image(Self::spec_static_tag_name(), self.spec_body())
    }

    fn write_to(&self, w: &mut Vec<u8>) {
        let tag = Self::static_tag_name();
        write_field_header(&tag, 12, w);
        self.x1.write_to(w);
        self.y1.write_to(w);
        self.z1.write_to(w);
        self.x2.write_to(w);
        self.y2.write_to(w);
        self.z2.write_to(w);
        proof {
            assert(w@ =~= old(w)@ + self.serialized());
        }
    }
}

impl DataSize for OBND {
    fn data_size(&self) -> (r: usize) {
        18
    }
}

impl FromField for OBND {
    /// The body must be exactly 12 bytes.
    open spec fn spec_accepts(field: &GeneralField) -> bool {
        field.data@.len() == 12
    }

    /// Each component is the little-endian reading of its bytes.
    open spec fn spec_is_interp(field: &GeneralField, v: &OBND) -> bool {
        v.x1 == spec_i16_of_le(field.data@.subrange(0, 2))
            && v.y1 == spec_i16_of_le(field.data@.subrange(2, 4))
            && v.z1 == spec_i16_of_le(field.data@.subrange(4, 6))
            && v.x2 == spec_i16_of_le(field.data@.subrange(6, 8))
            && v.y2 == spec_i16_of_le(field.data@.subrange(8, 10))
            && v.z2 == spec_i16_of_le(field.data@.subrange(10, 12))
    }

    open spec fn spec_reject_err(field: &GeneralField) -> FromFieldError {
        if field.data@.len() != 12 {
            FromFieldError::ParseError(
                ParseError::ExpectedExact {
                    expected: 12 as usize,
                    found: field.data@.len() as usize,
                },
            )
        } else {
            FromFieldError::ParseError(ParseError::InvalidEnumerationValue)
        }
    }

    fn from_field(field: &GeneralField) -> (r: Result<Self, FromFieldError>) {
        let n = field.data.len();
        if n != 12 {
            return Err(
                FromFieldError::ParseError(ParseError::ExpectedExact { expected: 12, found: n }),
            );
        }
        let body: &[u8] = field.data.as_slice();
        let (rest0, c_x1) = match crate::parse::le_i16(body) {
            Ok(p) => p,
            Err(e) => {
                return Err(FromFieldError::ParseError(e));
            },
        };
        proof {
            assert(body@.take(2) =~= field.data@.subrange(0, 2));
            assert(rest0@ =~= field.data@.skip(2));
        }
        let (rest1, c_y1) = match crate::parse::le_i16(rest0) {
            Ok(p) => p,
            Err(e) => {
                return Err(FromFieldError::ParseError(e));
            },
        };
        proof {
            assert(rest0@.take(2) =~= field.data@.subrange(2, 4));
            assert(rest1@ =~= field.data@.skip(4));
        }
        let (rest2, c_z1) = match crate::parse::le_i16(rest1) {
            Ok(p) => p,
            Err(e) => {
                return Err(FromFieldError::ParseError(e));
            },
        };
        proof {
            assert(rest1@.take(2) =~= field.data@.subrange(4, 6));
            assert(rest2@ =~= field.data@.skip(6));
        }
        let (rest3, c_x2) = match crate::parse::le_i16(rest2) {
            Ok(p) => p,
            Err(e) => {
                return Err(FromFieldError::ParseError(e));
            },
        };
        proof {
            assert(rest2@.take(2) =~= field.data@.subrange(6, 8));
            assert(rest3@ =~= field.data@.skip(8));
        }
        let (rest4, c_y2) = match crate::parse::le_i16(rest3) {
            Ok(p) => p,
            Err(e) => {
                return Err(FromFieldError::ParseError(e));
            },
        };
        proof {
            assert(rest3@.take(2) =~= field.data@.subrange(8, 10));
            assert(rest4@ =~= field.data@.skip(10));
        }
        let (rest5, c_z2) = match crate::parse::le_i16(rest4) {
            Ok(p) => p,
            Err(e) => {
                return Err(FromFieldError::ParseError(e));
            },
        };
        proof {
            assert(rest4@.take(2) =~= field.data@.subrange(10, 12));
            assert(rest5@ =~= field.data@.skip(12));
        }
        let v = OBND { x1: c_x1, y1: c_y1, z1: c_z1, x2: c_x2, y2: c_y2, z2: c_z2 };
        proof {
            crate::parse::lemma_i16_le_bytes_round_trip(field.data@.subrange(0, 2));
            crate::parse::lemma_i16_le_bytes_round_trip(field.data@.subrange(2, 4));
            crate::parse::lemma_i16_le_bytes_round_trip(field.data@.subrange(4, 6));
            crate::parse::lemma_i16_le_bytes_round_trip(field.data@.subrange(6, 8));
            crate::parse::lemma_i16_le_bytes_round_trip(field.data@.subrange(8, 10));
            crate::parse::lemma_i16_le_bytes_round_trip(field.data@.subrange(10, 12));
            assert(v.spec_body() =~= field.data@);
            assert(v.serialized() =~= field.serialized());
        }
        Ok(v)
    }
}


impl OBND {
    /// Builds the bounds from its two corners.
    pub fn new(p1: crate::util::Position3<i16>, p2: crate::util::Position3<i16>) -> (r: OBND)
        ensures
            r == (OBND { x1: p1.x, y1: p1.y, z1: p1.z, x2: p2.x, y2: p2.y, z2: p2.z }),
    {
        OBND { x1: p1.x, y1: p1.y, z1: p1.z, x2: p2.x, y2: p2.y, z2: p2.z }
    }
}

} // verus!

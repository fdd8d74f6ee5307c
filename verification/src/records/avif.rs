//! Typed pieces of actor-value records: the skill category and the
//! category field that keeps out-of-range values verbatim.
use crate::fields::{spec_field_image, write_field_header, FromField, FromFieldError, GeneralField};
use crate::parse::{spec_u32_le, spec_u32_of_le, Parse, ParseError};
use crate::records::common::StaticTypeNamed;
use crate::util::{DataSize, StaticDataSize, Writable};
use vstd::prelude::*;

verus! {

/// The category an actor value belongs to.
#[derive(Debug, Copy, Clone, PartialEq, Eq, Structural)]
pub enum SkillCategory {
    NoCategory,
    Combat,
    Magic,
    Stealth,
}

impl SkillCategory {
    /// The 32-bit value this choice writes.
    pub open spec fn spec_code(&self) -> u32 {
        match *self {
            SkillCategory::NoCategory => 0,
            SkillCategory::Combat => 1,
            SkillCategory::Magic => 2,
            SkillCategory::Stealth => 3,
        }
    }

    /// Returns exactly `spec_code`.
    pub fn code(&self) -> (r: u32)
        ensures
            r == self.spec_code(),
    {
        match *self {
            SkillCategory::NoCategory => 0,
            SkillCategory::Combat => 1,
            SkillCategory::Magic => 2,
            SkillCategory::Stealth => 3,
        }
    }

    /// The choice a value denotes, when in range.
    pub open spec fn spec_of_code(value: u32) -> Self {
        if value == 0 {
            SkillCategory::NoCategory
        } else if value == 1 {
            SkillCategory::Combat
        } else if value == 2 {
            SkillCategory::Magic
        } else {
            SkillCategory::Stealth
        }
    }

    /// The named choice for an in-range value, and the value itself in the
    /// error otherwise.
    pub fn try_from(value: u32) -> (r: Result<Self, crate::records::common::ConversionError<u32>>)
        ensures
            value < 4 ==> (r matches Ok(v) && v == Self::spec_of_code(value)),
            value >= 4 ==> (r matches Err(e) && e matches
                crate::records::common::ConversionError::InvalidEnumerationValue(x) && x == value),
    {
        match value {
            0 => Ok(SkillCategory::NoCategory),
            1 => Ok(SkillCategory::Combat),
            2 => Ok(SkillCategory::Magic),
            3 => Ok(SkillCategory::Stealth),
            _ => Err(crate::records::common::ConversionError::InvalidEnumerationValue(value)),
        }
    }
}

impl Writable for SkillCategory {
    open spec fn serialized(&self) -> Seq<u8> {
        crate::parse::spec_u32_le(self.spec_code())
    }

    fn write_to(&self, w: &mut Vec<u8>) {
        let c = self.code();
        c.write_to(w);
    }
}

impl StaticDataSize for SkillCategory {
    open spec fn spec_static_size() -> nat {
        4
    }

    proof fn lemma_static_size(&self) {
    }

    fn static_data_size() -> (r: usize) {
        4
    }
}

impl DataSize for SkillCategory {
    fn data_size(&self) -> (r: usize) {
        4
    }
}

impl Parse for SkillCategory {
    open spec fn spec_size() -> nat {
        4
    }

    open spec fn spec_valid(s: Seq<u8>) -> bool {
        crate::parse::spec_u32_of_le(s) < 4
    }

    open spec fn spec_decode(s: Seq<u8>) -> SkillCategory {
        Self::spec_of_code(crate::parse::spec_u32_of_le(s))
    }

    proof fn lemma_encode_size(v: SkillCategory) {
        crate::parse::lemma_u32_le_round_trip(v.spec_code());
    }

    proof fn lemma_round_trip(v: SkillCategory) {
        crate::parse::lemma_u32_le_round_trip(v.spec_code());
    }

    proof fn lemma_bytes_round_trip(s: Seq<u8>) {
        crate::parse::lemma_u32_le_bytes_round_trip(s);
    }

    fn parse(data: &[u8]) -> (r: Result<(&[u8], Self), ParseError>) {
        let (rest, value) = match crate::parse::le_u32(data) {
            Ok(p) => p,
            Err(e) => {
                return Err(e);
            },
        };
        match Self::try_from(value) {
            Ok(v) => Ok((rest, v)),
            Err(_) => Err(ParseError::InvalidEnumerationValue),
        }
    }
}

/// The category field: a named category where the value is known, and the
/// raw 32-bit value kept verbatim where it is not, so decoding never fails
/// and the bytes always round-trip.
#[derive(Debug, Copy, Clone, PartialEq, Eq, Structural)]
pub enum CNAM {
    SkillCategory(SkillCategory),
    Unknown(u32),
}

impl CNAM {
    /// The 32-bit value this field writes: the category's code, or the raw
    /// value that matched no category.
    pub open spec fn spec_value(&self) -> u32 {
        match *self {
            CNAM::SkillCategory(c) => c.spec_code(),
            CNAM::Unknown(x) => x,
        }
    }
}

impl StaticTypeNamed for CNAM {
    open spec fn spec_static_tag_name() -> Seq<u8> {
        seq![0x43u8, 0x4eu8, 0x41u8, 0x4du8]
    }

    fn static_tag_name() -> (r: [u8; 4]) {
        let r = [0x43u8, 0x4eu8, 0x41u8, 0x4du8];
        proof {
            assert(r@ =~= Self::spec_static_tag_name());
        }
        r
    }
}

impl Writable for CNAM {
    open spec fn serialized(&self) -> Seq<u8> {
        spec_field_image(Self::spec_static_tag_name(), spec_u32_le(self.spec_value()))
    }

    fn write_to(&self, w: &mut Vec<u8>) {
        let tag = Self::static_tag_name();
        write_field_header(&tag, 4, w);
        let v: u32 = match self {
            CNAM::SkillCategory(c) => c.code(),
            CNAM::Unknown(x) => *x,
        };
        v.write_to(w);
        proof {
            assert(w@ =~= old(w)@ + self.serialized());
        }
    }
}

impl DataSize for CNAM {
    fn data_size(&self) -> (r: usize) {
        10
    }
}

impl FromField for CNAM {
    /// Any 4-byte body converts: an out-of-range value falls back to the
    /// raw form instead of failing.
    open spec fn spec_accepts(field: &GeneralField) -> bool {
        field.data@.len() == 4
    }

    /// A known value becomes its named category; any other value is kept
    /// raw, so it re-encodes to the same bytes.
    open spec fn spec_is_interp(field: &GeneralField, v: &CNAM) -> bool {
        &&& v.spec_value() == spec_u32_of_le(field.data@)
        &&& (spec_u32_of_le(field.data@) < 4 <==> v is SkillCategory)
    }

    open spec fn spec_reject_err(field: &GeneralField) -> FromFieldError {
        FromFieldError::ParseError(
            ParseError::ExpectedExact { expected: 4 as usize, found: field.data@.len() as usize },
        )
    }

    fn from_field(field: &GeneralField) -> (r: Result<Self, FromFieldError>) {
        let n = field.data.len();
        if n != 4 {
            return Err(
                FromFieldError::ParseError(ParseError::ExpectedExact { expected: 4, found: n }),
            );
        }
        let body: &[u8] = field.data.as_slice();
        let (_, value) = match crate::parse::le_u32(body) {
            Ok(p) => p,
            Err(e) => {
                return Err(FromFieldError::ParseError(e));
            },
        };
        proof {
            assert(body@.take(4) =~= field.data@);
        }
        let v = match SkillCategory::try_from(value) {
            Ok(c) => CNAM::SkillCategory(c),
            Err(_) => CNAM::Unknown(value),
        };
        proof {
            crate::parse::lemma_u32_le_bytes_round_trip(field.data@);
            assert(v.serialized() =~= field.serialized());
        }
        Ok(v)
    }
}

} // verus!

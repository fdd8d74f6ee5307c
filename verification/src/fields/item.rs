//! Typed fields shared by carryable-item records: quality, value,
//! body templates, icons, and pickup and drop sounds.
use crate::fields::{spec_field_image, write_field_header, FromField, FromFieldError, GeneralField};
use crate::parse::{
    spec_i16_le, spec_i16_of_le, spec_u16_le, spec_u16_of_le, spec_u32_le, spec_u32_of_le, Parse,
    ParseError,
};
use crate::records::common::StaticTypeNamed;
use crate::util::{DataSize, StaticDataSize, Writable};
use vstd::prelude::*;

verus! {

/// The craftsmanship tier of an item.
#[derive(Debug, Copy, Clone, PartialEq, Eq, Structural)]
pub enum Quality {
    Novice,
    Apprentice,
    Journeyman,
    Expert,
    Master,
}

impl Quality {
    /// The 32-bit value this choice writes.
    pub open spec fn spec_code(&self) -> u32 {
        match *self {
            Quality::Novice => 0,
            Quality::Apprentice => 1,
            Quality::Journeyman => 2,
            Quality::Expert => 3,
            Quality::Master => 4,
        }
    }

    /// Returns exactly `spec_code`.
    pub fn code(&self) -> (r: u32)
        ensures
            r == self.spec_code(),
    {
        match *self {
            Quality::Novice => 0,
            Quality::Apprentice => 1,
            Quality::Journeyman => 2,
            Quality::Expert => 3,
            Quality::Master => 4,
        }
    }

    /// The choice a value denotes, when in range.
    pub open spec fn spec_of_code(value: u32) -> Self {
        if value == 0 {
            Quality::Novice
        } else if value == 1 {
            Quality::Apprentice
        } else if value == 2 {
            Quality::Journeyman
        } else if value == 3 {
            Quality::Expert
        } else {
            Quality::Master
        }
    }

    /// The named choice for an in-range value, and the value itself in the
    /// error otherwise.
    pub fn try_from(value: u32) -> (r: Result<Self, crate::records::common::ConversionError<u32>>)
        ensures
            value < 5 ==> (r matches Ok(v) && v == Self::spec_of_code(value)),
            value >= 5 ==> (r matches Err(e) && e matches
                crate::records::common::ConversionError::InvalidEnumerationValue(x) && x == value),
    {
        match value {
            0 => Ok(Quality::Novice),
            1 => Ok(Quality::Apprentice),
            2 => Ok(Quality::Journeyman),
            3 => Ok(Quality::Expert),
            4 => Ok(Quality::Master),
            _ => Err(crate::records::common::ConversionError::InvalidEnumerationValue(value)),
        }
    }
}

impl Writable for Quality {
    open spec fn serialized(&self) -> Seq<u8> {
        crate::parse::spec_u32_le(self.spec_code())
    }

    fn write_to(&self, w: &mut Vec<u8>) {
        let c = self.code();
        c.write_to(w);
    }
}

impl StaticDataSize for Quality {
    open spec fn spec_static_size() -> nat {
        4
    }

    proof fn lemma_static_size(&self) {
    }

    fn static_data_size() -> (r: usize) {
        4
    }
}

impl DataSize for Quality {
    fn data_size(&self) -> (r: usize) {
        4
    }
}

impl Parse for Quality {
    open spec fn spec_size() -> nat {
        4
    }

    open spec fn spec_valid(s: Seq<u8>) -> bool {
        crate::parse::spec_u32_of_le(s) < 5
    }

    open spec fn spec_decode(s: Seq<u8>) -> Quality {
        Self::spec_of_code(crate::parse::spec_u32_of_le(s))
    }

    proof fn lemma_encode_size(v: Quality) {
        crate::parse::lemma_u32_le_round_trip(v.spec_code());
    }

    proof fn lemma_round_trip(v: Quality) {
        crate::parse::lemma_u32_le_round_trip(v.spec_code());
    }

    proof fn lemma_bytes_round_trip(s: Seq<u8>) {
        crate::parse::lemma_u32_le_bytes_round_trip(s);
    }

    fn parse(data: &[u8]) -> (r: Result<(&[u8], Self), ParseError>) {
        let (rest, value) = match crate::parse::le_u32(data) {
            Ok(p) => p,
            Err(e) => {
                return Err(e);
            },
        };
        match Self::try_from(value) {
            Ok(v) => Ok((rest, v)),
            Err(_) => Err(ParseError::InvalidEnumerationValue),
        }
    }
}

/// Which armor skill an item trains, if any.
#[derive(Debug, Copy, Clone, PartialEq, Eq, Structural)]
pub enum ArmorSkill {
    LightArmor,
    HeavyArmor,
    NoArmor,
}

impl ArmorSkill {
    /// The 32-bit value this choice writes.
    pub open spec fn spec_code(&self) -> u32 {
        match *self {
            ArmorSkill::LightArmor => 0,
            ArmorSkill::HeavyArmor => 1,
            ArmorSkill::NoArmor => 2,
        }
    }

    /// Returns exactly `spec_code`.
    pub fn code(&self) -> (r: u32)
        ensures
            r == self.spec_code(),
    {
        match *self {
            ArmorSkill::LightArmor => 0,
            ArmorSkill::HeavyArmor => 1,
            ArmorSkill::NoArmor => 2,
        }
    }

    /// The choice a value denotes, when in range.
    pub open spec fn spec_of_code(value: u32) -> Self {
        if value == 0 {
            ArmorSkill::LightArmor
        } else if value == 1 {
            ArmorSkill::HeavyArmor
        } else {
            ArmorSkill::NoArmor
        }
    }

    /// The named choice for an in-range value, and the value itself in the
    /// error otherwise.
    pub fn try_from(value: u32) -> (r: Result<Self, crate::records::common::ConversionError<u32>>)
        ensures
            value < 3 ==> (r matches Ok(v) && v == Self::spec_of_code(value)),
            value >= 3 ==> (r matches Err(e) && e matches
                crate::records::common::ConversionError::InvalidEnumerationValue(x) && x == value),
    {
        match value {
            0 => Ok(ArmorSkill::LightArmor),
            1 => Ok(ArmorSkill::HeavyArmor),
            2 => Ok(ArmorSkill::NoArmor),
            _ => Err(crate::records::common::ConversionError::InvalidEnumerationValue(value)),
        }
    }
}

impl Writable for ArmorSkill {
    open spec fn serialized(&self) -> Seq<u8> {
        crate::parse::spec_u32_le(self.spec_code())
    }

    fn write_to(&self, w: &mut Vec<u8>) {
        let c = self.code();
        c.write_to(w);
    }
}

impl StaticDataSize for ArmorSkill {
    open spec fn spec_static_size() -> nat {
        4
    }

    proof fn lemma_static_size(&self) {
    }

    fn static_data_size() -> (r: usize) {
        4
    }
}

impl DataSize for ArmorSkill {
    fn data_size(&self) -> (r: usize) {
        4
    }
}

impl Parse for ArmorSkill {
    open spec fn spec_size() -> nat {
        4
    }

    open spec fn spec_valid(s: Seq<u8>) -> bool {
        crate::parse::spec_u32_of_le(s) < 3
    }

    open spec fn spec_decode(s: Seq<u8>) -> ArmorSkill {
        Self::spec_of_code(crate::parse::spec_u32_of_le(s))
    }

    proof fn lemma_encode_size(v: ArmorSkill) {
        crate::parse::lemma_u32_le_round_trip(v.spec_code());
    }

    proof fn lemma_round_trip(v: ArmorSkill) {
        crate::parse::lemma_u32_le_round_trip(v.spec_code());
    }

    proof fn lemma_bytes_round_trip(s: Seq<u8>) {
        crate::parse::lemma_u32_le_bytes_round_trip(s);
    }

    fn parse(data: &[u8]) -> (r: Result<(&[u8], Self), ParseError>) {
        let (rest, value) = match crate::parse::le_u32(data) {
            Ok(p) => p,
            Err(e) => {
                return Err(e);
            },
        };
        match Self::try_from(value) {
            Ok(v) => Ok((rest, v)),
            Err(_) => Err(ParseError::InvalidEnumerationValue),
        }
    }
}

/// Which body-part nodes an item occupies.
#[derive(Debug, Copy, Clone, PartialEq, Eq, Structural)]
pub struct BodyPartNodeFlags {
    pub flags: u32,
}

impl BodyPartNodeFlags {
}

impl Writable for BodyPartNodeFlags {
    open spec fn serialized(&self) -> Seq<u8> {
        crate::parse::spec_u32_le(self.flags)
    }

    fn write_to(&self, w: &mut Vec<u8>) {
        self.flags.write_to(w);
    }
}

impl StaticDataSize for BodyPartNodeFlags {
    open spec fn spec_static_size() -> nat {
        4
    }

    proof fn lemma_static_size(&self) {
    }

    fn static_data_size() -> (r: usize) {
        4
    }
}

impl DataSize for BodyPartNodeFlags {
    fn data_size(&self) -> (r: usize) {
        4
    }
}

impl Parse for BodyPartNodeFlags {
    open spec fn spec_size() -> nat {
        4
    }

    open spec fn spec_valid(s: Seq<u8>) -> bool {
        true
    }

    open spec fn spec_decode(s: Seq<u8>) -> BodyPartNodeFlags {
        BodyPartNodeFlags { flags: crate::parse::spec_u32_of_le(s) }
    }

    proof fn lemma_encode_size(v: BodyPartNodeFlags) {
        crate::parse::lemma_u32_le_round_trip(v.flags);
    }

    proof fn lemma_round_trip(v: BodyPartNodeFlags) {
        crate::parse::lemma_u32_le_round_trip(v.flags);
    }

    proof fn lemma_bytes_round_trip(s: Seq<u8>) {
        crate::parse::lemma_u32_le_bytes_round_trip(s);
    }

    fn parse(data: &[u8]) -> (r: Result<(&[u8], Self), ParseError>) {
        match crate::parse::le_u32(data) {
            Ok((rem, flags)) => Ok((rem, Self { flags })),
            Err(e) => Err(e),
        }
    }
}

/// General body-template flags.
#[derive(Debug, Copy, Clone, PartialEq, Eq, Structural)]
pub struct BODTFlags {
    pub flags: u8,
}

impl BODTFlags {
}

impl Writable for BODTFlags {
    open spec fn serialized(&self) -> Seq<u8> {
        seq![self.flags]
    }

    fn write_to(&self, w: &mut Vec<u8>) {
        self.flags.write_to(w);
    }
}

impl StaticDataSize for BODTFlags {
    open spec fn spec_static_size() -> nat {
        1
    }

    proof fn lemma_static_size(&self) {
    }

    fn static_data_size() -> (r: usize) {
        1
    }
}

impl DataSize for BODTFlags {
    fn data_size(&self) -> (r: usize) {
        1
    }
}

impl Parse for BODTFlags {
    open spec fn spec_size() -> nat {
        1
    }

    open spec fn spec_valid(s: Seq<u8>) -> bool {
        true
    }

    open spec fn spec_decode(s: Seq<u8>) -> BODTFlags {
        BODTFlags { flags: s[0] }
    }

    proof fn lemma_encode_size(v: BODTFlags) {
    }

    proof fn lemma_round_trip(v: BODTFlags) {
    }

    proof fn lemma_bytes_round_trip(s: Seq<u8>) {
        assert(Self::spec_decode(s).serialized() =~= s);
    }

    fn parse(data: &[u8]) -> (r: Result<(&[u8], Self), ParseError>) {
        match crate::parse::single(data) {
            Ok((rem, flags)) => Ok((rem, Self { flags })),
            Err(e) => Err(e),
        }
    }
}

/// Quality: the craftsmanship tier, as a 32-bit enumeration.
#[derive(Debug, Copy, Clone, PartialEq, Eq, Structural)]
pub struct QUAL {
    /// The tier
    pub quality: Quality,
}

impl QUAL {
    /// This field's body bytes: its components' images, in order.
    pub open spec fn spec_body(&self) -> Seq<u8> {
        spec_u32_le(self.quality.spec_code())
    }
}

impl StaticTypeNamed for QUAL {
    open spec fn spec_static_tag_name() -> Seq<u8> {
        seq![0x51u8, 0x55u8, 0x41u8, 0x4cu8]
    }

    fn static_tag_name() -> (r: [u8; 4]) {
        let r = [0x51u8, 0x55u8, 0x41u8, 0x4cu8];
        proof {
            assert(r@ =~= Self::spec_static_tag_name());
        }
        r
    }
}

impl Writable for QUAL {
    open spec fn serialized(&self) -> Seq<u8> {
        spec_field_image(Self::spec_static_tag_name(), self.spec_body())
    }

    fn write_to(&self, w: &mut Vec<u8>) {
        let tag = Self::static_tag_name();
        write_field_header(&tag, 4, w);
        let c_quality = self.quality.code();
        c_quality.write_to(w);
        proof {
            assert(w@ =~= old(w)@ + self.serialized());
        }
    }
}

impl DataSize for QUAL {
    fn data_size(&self) -> (r: usize) {
        10
    }
}

impl FromField for QUAL {
    /// The body must be exactly 4 bytes with every enumeration in range.
    open spec fn spec_accepts(field: &GeneralField) -> bool {
        field.data@.len() == 4 && spec_u32_of_le(field.data@.subrange(0, 4)) < 5
    }

    /// Each component is the little-endian reading of its bytes.
    open spec fn spec_is_interp(field: &GeneralField, v: &QUAL) -> bool {
        v.quality == Quality::spec_of_code(spec_u32_of_le(field.data@.subrange(0, 4)))
    }

    open spec fn spec_reject_err(field: &GeneralField) -> FromFieldError {
        if field.data@.len() != 4 {
            FromFieldError::ParseError(
                ParseError::ExpectedExact {
                    expected: 4 as usize,
                    found: field.data@.len() as usize,
                },
            )
        } else {
            FromFieldError::ParseError(ParseError::InvalidEnumerationValue)
        }
    }

    fn from_field(field: &GeneralField) -> (r: Result<Self, FromFieldError>) {
        let n = field.data.len();
        if n != 4 {
            return Err(
                FromFieldError::ParseError(ParseError::ExpectedExact { expected: 4, found: n }),
            );
        }
        let body: &[u8] = field.data.as_slice();
        let (rest0, c_quality) = match crate::parse::le_u32(body) {
            Ok(p) => p,
            Err(e) => {
                return Err(FromFieldError::ParseError(e));
            },
        };
        proof {
            assert(body@.take(4) =~= field.data@.subrange(0, 4));
            assert(rest0@ =~= field.data@.skip(4));
        }
        let c_quality = match Quality::try_from(c_quality) {
            Ok(v) => v,
            Err(_) => {
                return Err(FromFieldError::ParseError(ParseError::InvalidEnumerationValue));
            },
        };
        let v = QUAL { quality: c_quality };
        proof {
            crate::parse::lemma_u32_le_bytes_round_trip(field.data@.subrange(0, 4));
            assert(v.spec_body() =~= field.data@);
            assert(v.serialized() =~= field.serialized());
        }
        Ok(v)
    }
}

/// Body template, current form: part nodes and the armor skill.
#[derive(Debug, Copy, Clone, PartialEq, Eq, Structural)]
pub struct BOD2 {
    /// Occupied body-part nodes
    pub part_node_flags: BodyPartNodeFlags,
    /// Armor skill trained
    pub skill: ArmorSkill,
}

impl BOD2 {
    /// This field's body bytes: its components' images, in order.
    pub open spec fn spec_body(&self) -> Seq<u8> {
        spec_u32_le(self.part_node_flags.flags) + spec_u32_le(self.skill.spec_code())
    }
}

impl StaticTypeNamed for BOD2 {
    open spec fn spec_static_tag_name() -> Seq<u8> {
        seq![0x42u8, 0x4fu8, 0x44u8, 0x32u8]
    }

    fn static_tag_name() -> (r: [u8; 4]) {
        let r = [0x42u8, 0x4fu8, 0x44u8, 0x32u8];
        proof {
            assert(r@ =~= Self::spec_static_tag_name());
        }
        r
    }
}

impl Writable for BOD2 {
    open spec fn serialized(&self) -> Seq<u8> {
        spec_field_image(Self::spec_static_tag_name(), self.spec_body())
    }

    fn write_to(&self, w: &mut Vec<u8>) {
        let tag = Self::static_tag_name();
        write_field_header(&tag, 8, w);
        self.part_node_flags.flags.write_to(w);
        let c_skill = self.skill.code();
        c_skill.write_to(w);
        proof {
            assert(w@ =~= old(w)@ + self.serialized());
        }
    }
}

impl DataSize for BOD2 {
    fn data_size(&self) -> (r: usize) {
        14
    }
}

impl FromField for BOD2 {
    /// The body must be exactly 8 bytes with every enumeration in range.
    open spec fn spec_accepts(field: &GeneralField) -> bool {
        field.data@.len() == 8 && spec_u32_of_le(field.data@.subrange(4, 8)) < 3
    }

    /// Each component is the little-endian reading of its bytes.
    open spec fn spec_is_interp(field: &GeneralField, v: &BOD2) -> bool {
        v.part_node_flags.flags == spec_u32_of_le(field.data@.subrange(0, 4))
            && v.skill == ArmorSkill::spec_of_code(spec_u32_of_le(field.data@.subrange(4, 8)))
    }

    open spec fn spec_reject_err(field: &GeneralField) -> FromFieldError {
        if field.data@.len() != 8 {
            FromFieldError::ParseError(
                ParseError::ExpectedExact {
                    expected: 8 as usize,
                    found: field.data@.len() as usize,
                },
            )
        } else {
            FromFieldError::ParseError(ParseError::InvalidEnumerationValue)
        }
    }

    fn from_field(field: &GeneralField) -> (r: Result<Self, FromFieldError>) {
        let n = field.data.len();
        if n != 8 {
            return Err(
                FromFieldError::ParseError(ParseError::ExpectedExact { expected: 8, found: n }),
            );
        }
        let body: &[u8] = field.data.as_slice();
        let (rest0, c_part_node_flags) = match crate::parse::le_u32(body) {
            Ok(p) => p,
            Err(e) => {
                return Err(FromFieldError::ParseError(e));
            },
        };
        proof {
            assert(body@.take(4) =~= field.data@.subrange(0, 4));
            assert(rest0@ =~= field.data@.skip(4));
        }
        let (rest1, c_skill) = match crate::parse::le_u32(rest0) {
            Ok(p) => p,
            Err(e) => {
                return Err(FromFieldError::ParseError(e));
            },
        };
        proof {
            assert(rest0@.take(4) =~= field.data@.subrange(4, 8));
            assert(rest1@ =~= field.data@.skip(8));
        }
        let c_skill = match ArmorSkill::try_from(c_skill) {
            Ok(v) => v,
            Err(_) => {
                return Err(FromFieldError::ParseError(ParseError::InvalidEnumerationValue));
            },
        };
        let v = BOD2 { part_node_flags: BodyPartNodeFlags { flags: c_part_node_flags }, skill: c_skill };
        proof {
            crate::parse::lemma_u32_le_bytes_round_trip(field.data@.subrange(0, 4));
            crate::parse::lemma_u32_le_bytes_round_trip(field.data@.subrange(4, 8));
            assert(v.spec_body() =~= field.data@);
            assert(v.serialized() =~= field.serialized());
        }
        Ok(v)
    }
}

/// Description: an index into the localized string table.
#[derive(Debug, Copy, Clone, PartialEq, Eq, Structural)]
pub struct DESC {
    /// Localized description
    pub description: crate::records::lstring::LString,
}

impl DESC {
    /// This field's body bytes: its components' images, in order.
    pub open spec fn spec_body(&self) -> Seq<u8> {
        spec_u32_le(self.description.index)
    }
}

impl StaticTypeNamed for DESC {
    open spec fn spec_static_tag_name() -> Seq<u8> {
        seq![0x44u8, 0x45u8, 0x53u8, 0x43u8]
    }

    fn static_tag_name() -> (r: [u8; 4]) {
        let r = [0x44u8, 0x45u8, 0x53u8, 0x43u8];
        proof {
            assert(r@ =~= Self::spec_static_tag_name());
        }
        r
    }
}

impl Writable for DESC {
    open spec fn serialized(&self) -> Seq<u8> {
        spec_field_image(Self::spec_static_tag_name(), self.spec_body())
    }

    fn write_to(&self, w: &mut Vec<u8>) {
        let tag = Self::static_tag_name();
        write_field_header(&tag, 4, w);
        self.description.index.write_to(w);
        proof {
            assert(w@ =~= old(w)@ + self.serialized());
        }
    }
}

impl DataSize for DESC {
    fn data_size(&self) -> (r: usize) {
        10
    }
}

impl FromField for DESC {
    /// The body must be exactly 4 bytes.
    open spec fn spec_accepts(field: &GeneralField) -> bool {
        field.data@.len() == 4
    }

    /// Each component is the little-endian reading of its bytes.
    open spec fn spec_is_interp(field: &GeneralField, v: &DESC) -> bool {
        v.description.index == spec_u32_of_le(field.data@.subrange(0, 4))
    }

    open spec fn spec_reject_err(field: &GeneralField) -> FromFieldError {
        if field.data@.len() != 4 {
            FromFieldError::ParseError(
                ParseError::ExpectedExact {
                    expected: 4 as usize,
                    found: field.data@.len() as usize,
                },
            )
        } else {
            FromFieldError::ParseError(ParseError::InvalidEnumerationValue)
        }
    }

    fn from_field(field: &GeneralField) -> (r: Result<Self, FromFieldError>) {
        let n = field.data.len();
        if n != 4 {
            return Err(
                FromFieldError::ParseError(ParseError::ExpectedExact { expected: 4, found: n }),
            );
        }
        let body: &[u8] = field.data.as_slice();
        let (rest0, c_description) = match crate::parse::le_u32(body) {
            Ok(p) => p,
            Err(e) => {
                return Err(FromFieldError::ParseError(e));
            },
        };
        proof {
            assert(body@.take(4) =~= field.data@.subrange(0, 4));
            assert(rest0@ =~= field.data@.skip(4));
        }
        let v = DESC { description: crate::records::lstring::LString { index: c_description } };
        proof {
            crate::parse::lemma_u32_le_bytes_round_trip(field.data@.subrange(0, 4));
            assert(v.spec_body() =~= field.data@);
            assert(v.serialized() =~= field.serialized());
        }
        Ok(v)
    }
}

/// Pickup sound: a reference to a sound record.
#[derive(Debug, Copy, Clone, PartialEq, Eq, Structural)]
pub struct YNAM {
    /// The sound record
    pub formid: crate::records::formid::FormId,
}

impl YNAM {
    /// This field's body bytes: its components' images, in order.
    pub open spec fn spec_body(&self) -> Seq<u8> {
        spec_u32_le(self.formid.id)
    }
}

impl StaticTypeNamed for YNAM {
    open spec fn spec_static_tag_name() -> Seq<u8> {
        seq![0x59u8, 0x4eu8, 0x41u8, 0x4du8]
    }

    fn static_tag_name() -> (r: [u8; 4]) {
        let r = [0x59u8, 0x4eu8, 0x41u8, 0x4du8];
        proof {
            assert(r@ =~= Self::spec_static_tag_name());
        }
        r
    }
}

impl Writable for YNAM {
    open spec fn serialized(&self) -> Seq<u8> {
        spec_field_image(Self::spec_static_tag_name(), self.spec_body())
    }

    fn write_to(&self, w: &mut Vec<u8>) {
        let tag = Self::static_tag_name();
        write_field_header(&tag, 4, w);
        self.formid.id.write_to(w);
        proof {
            assert(w@ =~= old(w)@ + self.serialized());
        }
    }
}

impl DataSize for YNAM {
    fn data_size(&self) -> (r: usize) {
        10
    }
}

impl FromField for YNAM {
    /// The body must be exactly 4 bytes.
    open spec fn spec_accepts(field: &GeneralField) -> bool {
        field.data@.len() == 4
    }

    /// Each component is the little-endian reading of its bytes.
    open spec fn spec_is_interp(field: &GeneralField, v: &YNAM) -> bool {
        v.formid.id == spec_u32_of_le(field.data@.subrange(0, 4))
    }

    open spec fn spec_reject_err(field: &GeneralField) -> FromFieldError {
        if field.data@.len() != 4 {
            FromFieldError::ParseError(
                ParseError::ExpectedExact {
                    expected: 4 as usize,
                    found: field.data@.len() as usize,
                },
            )
        } else {
            FromFieldError::ParseError(ParseError::InvalidEnumerationValue)
        }
    }

    fn from_field(field: &GeneralField) -> (r: Result<Self, FromFieldError>) {
        let n = field.data.len();
        if n != 4 {
            return Err(
                FromFieldError::ParseError(ParseError::ExpectedExact { expected: 4, found: n }),
            );
        }
        let body: &[u8] = field.data.as_slice();
        let (rest0, c_formid) = match crate::parse::le_u32(body) {
            Ok(p) => p,
            Err(e) => {
                return Err(FromFieldError::ParseError(e));
            },
        };
        proof {
            assert(body@.take(4) =~= field.data@.subrange(0, 4));
            assert(rest0@ =~= field.data@.skip(4));
        }
        let v = YNAM { formid: crate::records::formid::FormId { id: c_formid } };
        proof {
            crate::parse::lemma_u32_le_bytes_round_trip(field.data@.subrange(0, 4));
            assert(v.spec_body() =~= field.data@);
            assert(v.serialized() =~= field.serialized());
        }
        Ok(v)
    }
}

/// Drop sound: a reference to a sound record.
#[derive(Debug, Copy, Clone, PartialEq, Eq, Structural)]
pub struct ZNAM {
    /// The sound record
    pub formid: crate::records::formid::FormId,
}

impl ZNAM {
    /// This field's body bytes: its components' images, in order.
    pub open spec fn spec_body(&self) -> Seq<u8> {
        spec_u32_le(self.formid.id)
    }
}

impl StaticTypeNamed for ZNAM {
    open spec fn spec_static_tag_name() -> Seq<u8> {
        seq![0x5au8, 0x4eu8, 0x41u8, 0x4du8]
    }

    fn static_tag_name() -> (r: [u8; 4]) {
        let r = [0x5au8, 0x4eu8, 0x41u8, 0x4du8];
        proof {
            assert(r@ =~= Self::spec_static_tag_name());
        }
        r
    }
}

impl Writable for ZNAM {
    open spec fn serialized(&self) -> Seq<u8> {
        spec_field_image(Self::spec_static_tag_name(), self.spec_body())
    }

    fn write_to(&self, w: &mut Vec<u8>) {
        let tag = Self::static_tag_name();
        write_field_header(&tag, 4, w);
        self.formid.id.write_to(w);
        proof {
            assert(w@ =~= old(w)@ + self.serialized());
        }
    }
}

impl DataSize for ZNAM {
    fn data_size(&self) -> (r: usize) {
        10
    }
}

impl FromField for ZNAM {
    /// The body must be exactly 4 bytes.
    open spec fn spec_accepts(field: &GeneralField) -> bool {
        field.data@.len() == 4
    }

    /// Each component is the little-endian reading of its bytes.
    open spec fn spec_is_interp(field: &GeneralField, v: &ZNAM) -> bool {
        v.formid.id == spec_u32_of_le(field.data@.subrange(0, 4))
    }

    open spec fn spec_reject_err(field: &GeneralField) -> FromFieldError {
        if field.data@.len() != 4 {
            FromFieldError::ParseError(
                ParseError::ExpectedExact {
                    expected: 4 as usize,
                    found: field.data@.len() as usize,
                },
            )
        } else {
            FromFieldError::ParseError(ParseError::InvalidEnumerationValue)
        }
    }

    fn from_field(field: &GeneralField) -> (r: Result<Self, FromFieldError>) {
        let n = field.data.len();
        if n != 4 {
            return Err(
                FromFieldError::ParseError(ParseError::ExpectedExact { expected: 4, found: n }),
            );
        }
        let body: &[u8] = field.data.as_slice();
        let (rest0, c_formid) = match crate::parse::le_u32(body) {
            Ok(p) => p,
            Err(e) => {
                return Err(FromFieldError::ParseError(e));
            },
        };
        proof {
            assert(body@.take(4) =~= field.data@.subrange(0, 4));
            assert(rest0@ =~= field.data@.skip(4));
        }
        let v = ZNAM { formid: crate::records::formid::FormId { id: c_formid } };
        proof {
            crate::parse::lemma_u32_le_bytes_round_trip(field.data@.subrange(0, 4));
            assert(v.spec_body() =~= field.data@);
            assert(v.serialized() =~= field.serialized());
        }
        Ok(v)
    }
}

/// Inventory icon filename, zero-terminated.
#[derive(Debug, Clone)]
pub struct ICON {
    /// Icon path
    pub filename: crate::records::null_terminated_string::NullTerminatedString,
}

impl StaticTypeNamed for ICON {
    open spec fn spec_static_tag_name() -> Seq<u8> {
        seq![0x49u8, 0x43u8, 0x4fu8, 0x4eu8]
    }

    fn static_tag_name() -> (r: [u8; 4]) {
        let r = [0x49u8, 0x43u8, 0x4fu8, 0x4eu8];
        proof {
            assert(r@ =~= Self::spec_static_tag_name());
        }
        r
    }
}

impl Writable for ICON {
    open spec fn serialized(&self) -> Seq<u8> {
        spec_field_image(Self::spec_static_tag_name(), self.filename.serialized())
    }

    fn write_to(&self, w: &mut Vec<u8>) {
        let tag = Self::static_tag_name();
        let body_len = self.filename.data_size();
        if body_len <= 0xFFFF {
            write_field_header(&tag, body_len, w);
        } else {
            // unreachable for bodies that fit their 2-byte prefix; keep the
            // truncating image the length field has either way
            let len16 = #[verifier::truncate] (body_len as u16);
            write_field_header(&tag, (len16 as usize), w);
            proof {
                assert((len16 as usize) as u16 == (self.filename.serialized().len() as u16));
            }
        }
        self.filename.write_to(w);
        proof {
            assert(w@ =~= old(w)@ + self.serialized());
        }
    }
}

impl DataSize for ICON {
    fn data_size(&self) -> (r: usize) {
        6 + self.filename.data_size()
    }
}

impl FromField for ICON {
    /// The body must be one whole zero-terminated string: the final byte is
    /// the sentinel and no earlier byte is.
    open spec fn spec_accepts(field: &GeneralField) -> bool {
        &&& field.data@.len() >= 1
    &&& field.data@[field.data@.len() - 1] == 0
    &&& forall|j: int| 0 <= j < field.data@.len() - 1 ==> field.data@[j] != 0
    }

    /// The value is the body without its final sentinel.
    open spec fn spec_is_interp(field: &GeneralField, v: &ICON) -> bool {
        v.filename.value@ == field.data@.take(field.data@.len() - 1)
    }

    /// A body with no sentinel ends too early; one with bytes after the
    /// first sentinel has trailing data.
    open spec fn spec_reject_err(field: &GeneralField) -> FromFieldError {
        if forall|j: int| 0 <= j < field.data@.len() ==> field.data@[j] != 0 {
            FromFieldError::ParseError(ParseError::UnexpectedEOF)
        } else {
            FromFieldError::ParseError(ParseError::ExpectedEOF)
        }
    }

    fn from_field(field: &GeneralField) -> (r: Result<Self, FromFieldError>) {
        let body: &[u8] = field.data.as_slice();
        let (rest, s) = match crate::records::null_terminated_string::NullTerminatedString::parse(
            body,
        ) {
            Ok(p) => p,
            Err(e) => {
                return Err(FromFieldError::ParseError(e));
            },
        };
        if rest.len() > 0 {
            return Err(FromFieldError::ParseError(ParseError::ExpectedEOF));
        }
        let v = ICON { filename: s };
        proof {
            assert(field.data@.take(field.data@.len() as int) =~= field.data@);
            assert(v.serialized() =~= field.serialized());
        }
        Ok(v)
    }
}

/// Message icon filename, zero-terminated.
#[derive(Debug, Clone)]
pub struct MICO {
    /// Icon path
    pub filename: crate::records::null_terminated_string::NullTerminatedString,
}

impl StaticTypeNamed for MICO {
    open spec fn spec_static_tag_name() -> Seq<u8> {
        seq![0x4du8, 0x49u8, 0x43u8, 0x4fu8]
    }

    fn static_tag_name() -> (r: [u8; 4]) {
        let r = [0x4du8, 0x49u8, 0x43u8, 0x4fu8];
        proof {
            assert(r@ =~= Self::spec_static_tag_name());
        }
        r
    }
}

impl Writable for MICO {
    open spec fn serialized(&self) -> Seq<u8> {
        spec_field_image(Self::spec_static_tag_name(), self.filename.serialized())
    }

    fn write_to(&self, w: &mut Vec<u8>) {
        let tag = Self::static_tag_name();
        let body_len = self.filename.data_size();
        if body_len <= 0xFFFF {
            write_field_header(&tag, body_len, w);
        } else {
            // unreachable for bodies that fit their 2-byte prefix; keep the
            // truncating image the length field has either way
            let len16 = #[verifier::truncate] (body_len as u16);
            write_field_header(&tag, (len16 as usize), w);
            proof {
                assert((len16 as usize) as u16 == (self.filename.serialized().len() as u16));
            }
        }
        self.filename.write_to(w);
        proof {
            assert(w@ =~= old(w)@ + self.serialized());
        }
    }
}

impl DataSize for MICO {
    fn data_size(&self) -> (r: usize) {
        6 + self.filename.data_size()
    }
}

impl FromField for MICO {
    /// The body must be one whole zero-terminated string: the final byte is
    /// the sentinel and no earlier byte is.
    open spec fn spec_accepts(field: &GeneralField) -> bool {
        &&& field.data@.len() >= 1
    &&& field.data@[field.data@.len() - 1] == 0
    &&& forall|j: int| 0 <= j < field.data@.len() - 1 ==> field.data@[j] != 0
    }

    /// The value is the body without its final sentinel.
    open spec fn spec_is_interp(field: &GeneralField, v: &MICO) -> bool {
        v.filename.value@ == field.data@.take(field.data@.len() - 1)
    }

    /// A body with no sentinel ends too early; one with bytes after the
    /// first sentinel has trailing data.
    open spec fn spec_reject_err(field: &GeneralField) -> FromFieldError {
        if forall|j: int| 0 <= j < field.data@.len() ==> field.data@[j] != 0 {
            FromFieldError::ParseError(ParseError::UnexpectedEOF)
        } else {
            FromFieldError::ParseError(ParseError::ExpectedEOF)
        }
    }

    fn from_field(field: &GeneralField) -> (r: Result<Self, FromFieldError>) {
        let body: &[u8] = field.data.as_slice();
        let (rest, s) = match crate::records::null_terminated_string::NullTerminatedString::parse(
            body,
        ) {
            Ok(p) => p,
            Err(e) => {
                return Err(FromFieldError::ParseError(e));
            },
        };
        if rest.len() > 0 {
            return Err(FromFieldError::ParseError(ParseError::ExpectedEOF));
        }
        let v = MICO { filename: s };
        proof {
            assert(field.data@.take(field.data@.len() as int) =~= field.data@);
            assert(v.serialized() =~= field.serialized());
        }
        Ok(v)
    }
}

/// An amount of gold, as item values store it.
#[derive(Debug, Copy, Clone, PartialEq, Eq, PartialOrd, Ord, Hash, Structural)]
pub struct Gold(pub u32);

impl Writable for Gold {
    open spec fn serialized(&self) -> Seq<u8> {
        spec_u32_le(self.0)
    }

    fn write_to(&self, w: &mut Vec<u8>) {
        self.0.write_to(w);
    }
}

impl StaticDataSize for Gold {
    open spec fn spec_static_size() -> nat {
        4
    }

    proof fn lemma_static_size(&self) {
    }

    fn static_data_size() -> (r: usize) {
        4
    }
}

impl DataSize for Gold {
    fn data_size(&self) -> (r: usize) {
        4
    }
}

impl Parse for Gold {
    open spec fn spec_size() -> nat {
        4
    }

    open spec fn spec_valid(s: Seq<u8>) -> bool {
        true
    }

    open spec fn spec_decode(s: Seq<u8>) -> Gold {
        Gold(spec_u32_of_le(s))
    }

    proof fn lemma_encode_size(v: Gold) {
        crate::parse::lemma_u32_le_round_trip(v.0);
    }

    proof fn lemma_round_trip(v: Gold) {
        crate::parse::lemma_u32_le_round_trip(v.0);
    }

    proof fn lemma_bytes_round_trip(s: Seq<u8>) {
        crate::parse::lemma_u32_le_bytes_round_trip(s);
    }

    fn parse(data: &[u8]) -> (r: Result<(&[u8], Self), ParseError>) {
        match crate::parse::le_u32(data) {
            Ok((rem, v)) => Ok((rem, Gold(v))),
            Err(e) => Err(e),
        }
    }
}

/// Body template, original form: part nodes, flags, three bytes upstream
/// calls junk but keeps, and an armor skill that rare records omit.
#[derive(Debug, Copy, Clone)]
pub struct BODT {
    pub part_node_flags: BodyPartNodeFlags,
    pub flags: BODTFlags,
    /// Kept verbatim; upstream thinks this is padding
    pub unknown: [u8; 3],
    /// Omitted by some rare records
    pub skill: Option<ArmorSkill>,
}

impl BODT {
    /// This field's body bytes.
    pub open spec fn spec_body(&self) -> Seq<u8> {
        spec_u32_le(self.part_node_flags.flags) + seq![self.flags.flags] + self.unknown@ + (
        match self.skill {
            Some(s) => spec_u32_le(s.spec_code()),
            None => Seq::<u8>::empty(),
        })
    }
}

impl StaticTypeNamed for BODT {
    open spec fn spec_static_tag_name() -> Seq<u8> {
        seq![0x42u8, 0x4fu8, 0x44u8, 0x54u8]
    }

    fn static_tag_name() -> (r: [u8; 4]) {
        let r = [0x42u8, 0x4fu8, 0x44u8, 0x54u8];
        proof {
            assert(r@ =~= Self::spec_static_tag_name());
        }
        r
    }
}

impl Writable for BODT {
    open spec fn serialized(&self) -> Seq<u8> {
        spec_field_image(Self::spec_static_tag_name(), self.spec_body())
    }

    fn write_to(&self, w: &mut Vec<u8>) {
        let tag = Self::static_tag_name();
        let body_len: usize = if self.skill.is_some() {
            12
        } else {
            8
        };
        write_field_header(&tag, body_len, w);
        self.part_node_flags.flags.write_to(w);
        w.push(self.flags.flags);
        w.push(self.unknown[0]);
        w.push(self.unknown[1]);
        w.push(self.unknown[2]);
        match self.skill {
            Some(s) => {
                let c = s.code();
                c.write_to(w);
            },
            None => {},
        }
        proof {
            assert(self.unknown@ =~= seq![self.unknown@[0], self.unknown@[1], self.unknown@[2]]);
            assert(w@ =~= old(w)@ + self.serialized());
        }
    }
}

impl DataSize for BODT {
    fn data_size(&self) -> (r: usize) {
        if self.skill.is_some() {
            18
        } else {
            14
        }
    }
}

impl FromField for BODT {
    /// The body is 8 bytes, or 12 with an in-range armor skill at the end.
    open spec fn spec_accepts(field: &GeneralField) -> bool {
        ||| field.data@.len() == 8
        ||| (field.data@.len() == 12 && spec_u32_of_le(field.data@.subrange(8, 12)) < 3)
    }

    /// Flag words and padding read in place; the skill is present exactly
    /// when the longer form was stored.
    open spec fn spec_is_interp(field: &GeneralField, v: &BODT) -> bool {
        &&& v.part_node_flags.flags == spec_u32_of_le(field.data@.subrange(0, 4))
        &&& v.flags.flags == field.data@[4]
        &&& v.unknown@ == field.data@.subrange(5, 8)
        &&& (field.data@.len() == 8 ==> v.skill is None)
        &&& (field.data@.len() == 12 ==> v.skill == Some(
            ArmorSkill::spec_of_code(spec_u32_of_le(field.data@.subrange(8, 12))),
        ))
    }

    /// Too few bytes end too early; too many have trailing data; 12 bytes
    /// with an out-of-range skill name an invalid enumeration value.
    open spec fn spec_reject_err(field: &GeneralField) -> FromFieldError {
        if field.data@.len() < 8 || (8 < field.data@.len() && field.data@.len() < 12) {
            FromFieldError::ParseError(ParseError::UnexpectedEOF)
        } else if field.data@.len() > 12 {
            FromFieldError::ParseError(ParseError::ExpectedEOF)
        } else {
            FromFieldError::ParseError(ParseError::InvalidEnumerationValue)
        }
    }

    fn from_field(field: &GeneralField) -> (r: Result<Self, FromFieldError>) {
        let n = field.data.len();
        if n < 8 || (8 < n && n < 12) {
            return Err(FromFieldError::ParseError(ParseError::UnexpectedEOF));
        }
        if n > 12 {
            return Err(FromFieldError::ParseError(ParseError::ExpectedEOF));
        }
        let body: &[u8] = field.data.as_slice();
        let (rest0, pnf) = match crate::parse::le_u32(body) {
            Ok(p) => p,
            Err(e) => {
                return Err(FromFieldError::ParseError(e));
            },
        };
        proof {
            assert(body@.take(4) =~= field.data@.subrange(0, 4));
        }
        let (rest1, fl) = match crate::parse::single(rest0) {
            Ok(p) => p,
            Err(e) => {
                return Err(FromFieldError::ParseError(e));
            },
        };
        let (rest2, u0) = match crate::parse::single(rest1) {
            Ok(p) => p,
            Err(e) => {
                return Err(FromFieldError::ParseError(e));
            },
        };
        let (rest3, u1) = match crate::parse::single(rest2) {
            Ok(p) => p,
            Err(e) => {
                return Err(FromFieldError::ParseError(e));
            },
        };
        let (rest4, u2) = match crate::parse::single(rest3) {
            Ok(p) => p,
            Err(e) => {
                return Err(FromFieldError::ParseError(e));
            },
        };
        let skill: Option<ArmorSkill> = if n == 12 {
            proof {
                assert(rest4@ =~= field.data@.skip(8));
                assert(rest4@.take(4) =~= field.data@.subrange(8, 12));
            }
            let (_, sv) = match crate::parse::le_u32(rest4) {
                Ok(p) => p,
                Err(e) => {
                    return Err(FromFieldError::ParseError(e));
                },
            };
            match ArmorSkill::try_from(sv) {
                Ok(s) => Some(s),
                Err(_) => {
                    return Err(FromFieldError::ParseError(ParseError::InvalidEnumerationValue));
                },
            }
        } else {
            None
        };
        let v = BODT {
            part_node_flags: BodyPartNodeFlags { flags: pnf },
            flags: BODTFlags { flags: fl },
            unknown: [u0, u1, u2],
            skill,
        };
        proof {
            crate::parse::lemma_u32_le_bytes_round_trip(field.data@.subrange(0, 4));
            if n == 12 {
                crate::parse::lemma_u32_le_bytes_round_trip(field.data@.subrange(8, 12));
            }
            assert(v.unknown@ =~= field.data@.subrange(5, 8));
            assert(v.spec_body() =~= field.data@);
            assert(v.serialized() =~= field.serialized());
        }
        Ok(v)
    }
}

} // verus!

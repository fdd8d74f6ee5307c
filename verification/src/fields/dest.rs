//! Destruction-data fields: the header field and its stage entries.
use crate::fields::{spec_field_image, write_field_header, FromField, FromFieldError, GeneralField};
use crate::parse::{
    spec_i16_le, spec_i16_of_le, spec_u16_le, spec_u16_of_le, spec_u32_le, spec_u32_of_le, Parse,
    ParseError,
};
use crate::records::common::StaticTypeNamed;
use crate::util::{DataSize, StaticDataSize, Writable};
use vstd::prelude::*;

verus! {

/// Destruction-stage flags.
#[derive(Debug, Copy, Clone, PartialEq, Eq, Structural)]
pub struct DSTDFlags {
    pub flags: u8,
}

impl DSTDFlags {

    /// Whether the `0b1` bit is set.
    pub fn cap_damage(&self) -> (r: bool)
        ensures
            r == ((self.flags & 0b1) != 0),
    {
        (self.flags & 0b1) != 0
    }

    /// Whether the `0b10` bit is set.
    pub fn disable_object(&self) -> (r: bool)
        ensures
            r == ((self.flags & 0b10) != 0),
    {
        (self.flags & 0b10) != 0
    }

    /// Whether the `0b100` bit is set.
    pub fn destroy_object(&self) -> (r: bool)
        ensures
            r == ((self.flags & 0b100) != 0),
    {
        (self.flags & 0b100) != 0
    }

    /// Whether the `0b1000` bit is set.
    pub fn ignore_external_damage(&self) -> (r: bool)
        ensures
            r == ((self.flags & 0b1000) != 0),
    {
        (self.flags & 0b1000) != 0
    }
}

impl Writable for DSTDFlags {
    open spec fn serialized(&self) -> Seq<u8> {
        seq![self.flags]
    }

    fn write_to(&self, w: &mut Vec<u8>) {
        self.flags.write_to(w);
    }
}

impl StaticDataSize for DSTDFlags {
    open spec fn spec_static_size() -> nat {
        1
    }

    proof fn lemma_static_size(&self) {
    }

    fn static_data_size() -> (r: usize) {
        1
    }
}

impl DataSize for DSTDFlags {
    fn data_size(&self) -> (r: usize) {
        1
    }
}

impl Parse for DSTDFlags {
    open spec fn spec_size() -> nat {
        1
    }

    open spec fn spec_valid(s: Seq<u8>) -> bool {
        true
    }

    open spec fn spec_decode(s: Seq<u8>) -> DSTDFlags {
        DSTDFlags { flags: s[0] }
    }

    proof fn lemma_encode_size(v: DSTDFlags) {
    }

    proof fn lemma_round_trip(v: DSTDFlags) {
    }

    proof fn lemma_bytes_round_trip(s: Seq<u8>) {
        assert(Self::spec_decode(s).serialized() =~= s);
    }

    fn parse(data: &[u8]) -> (r: Result<(&[u8], Self), ParseError>) {
        match crate::parse::single(data) {
            Ok((rem, flags)) => Ok((rem, Self { flags })),
            Err(e) => Err(e),
        }
    }
}

/// Destruction data: object health and how many stages follow.
#[derive(Debug, Copy, Clone, PartialEq, Eq, Structural)]
pub struct DEST {
    /// Object health
    pub health: u32,
    /// Number of destruction stages that follow
    pub count: u8,
    /// Destruction flags
    pub flags: u8,
    /// Kept verbatim
    pub unknown: u16,
}

impl DEST {
    /// This field's body bytes: its components' images, in order.
    pub open spec fn spec_body(&self) -> Seq<u8> {
        spec_u32_le(self.health) + seq![self.count] + seq![self.flags] + spec_u16_le(self.unknown)
    }
}

impl StaticTypeNamed for DEST {
    open spec fn spec_static_tag_name() -> Seq<u8> {
        seq![0x44u8, 0x45u8, 0x53u8, 0x54u8]
    }

    fn static_tag_name() -> (r: [u8; 4]) {
        let r = [0x44u8, 0x45u8, 0x53u8, 0x54u8];
        proof {
            assert(r@ =~= Self::spec_static_tag_name());
        }
        r
    }
}

impl Writable for DEST {
    open spec fn serialized(&self) -> Seq<u8> {
        spec_field_image(Self::spec_static_tag_name(), self.spec_body())
    }

    fn write_to(&self, w: &mut Vec<u8>) {
        let tag = Self::static_tag_name();
        write_field_header(&tag, 8, w);
        self.health.write_to(w);
        self.count.write_to(w);
        self.flags.write_to(w);
        self.unknown.write_to(w);
        proof {
            assert(w@ =~= old(w)@ + self.serialized());
        }
    }
}

impl DataSize for DEST {
    fn data_size(&self) -> (r: usize) {
        14
    }
}

impl FromField for DEST {
    /// The body must be exactly 8 bytes.
    open spec fn spec_accepts(field: &GeneralField) -> bool {
        field.data@.len() == 8
    }

    /// Each component is the little-endian reading of its bytes.
    open spec fn spec_is_interp(field: &GeneralField, v: &DEST) -> bool {
        v.health == spec_u32_of_le(field.data@.subrange(0, 4))
            && v.count == field.data@[4]
            && v.flags == field.data@[5]
            && v.unknown == spec_u16_of_le(field.data@.subrange(6, 8))
    }

    open spec fn spec_reject_err(field: &GeneralField) -> FromFieldError {
        if field.data@.len() != 8 {
            FromFieldError::ParseError(
                ParseError::ExpectedExact {
                    expected: 8 as usize,
                    found: field.data@.len() as usize,
                },
            )
        } else {
            FromFieldError::ParseError(ParseError::InvalidEnumerationValue)
        }
    }

    fn from_field(field: &GeneralField) -> (r: Result<Self, FromFieldError>) {
        let n = field.data.len();
        if n != 8 {
            return Err(
                FromFieldError::ParseError(ParseError::ExpectedExact { expected: 8, found: n }),
            );
        }
        let body: &[u8] = field.data.as_slice();
        let (rest0, c_health) = match crate::parse::le_u32(body) {
            Ok(p) => p,
            Err(e) => {
                return Err(FromFieldError::ParseError(e));
            },
        };
        proof {
            assert(body@.take(4) =~= field.data@.subrange(0, 4));
            assert(rest0@ =~= field.data@.skip(4));
        }
        let (rest1, c_count) = match crate::parse::single(rest0) {
            Ok(p) => p,
            Err(e) => {
                return Err(FromFieldError::ParseError(e));
            },
        };
        proof {
            assert(rest0@.take(1) =~= field.data@.subrange(4, 5));
            assert(rest1@ =~= field.data@.skip(5));
        }
        let (rest2, c_flags) = match crate::parse::single(rest1) {
            Ok(p) => p,
            Err(e) => {
                return Err(FromFieldError::ParseError(e));
            },
        };
        proof {
            assert(rest1@.take(1) =~= field.data@.subrange(5, 6));
            assert(rest2@ =~= field.data@.skip(6));
        }
        let (rest3, c_unknown) = match crate::parse::le_u16(rest2) {
            Ok(p) => p,
            Err(e) => {
                return Err(FromFieldError::ParseError(e));
            },
        };
        proof {
            assert(rest2@.take(2) =~= field.data@.subrange(6, 8));
            assert(rest3@ =~= field.data@.skip(8));
        }
        let v = DEST { health: c_health, count: c_count, flags: c_flags, unknown: c_unknown };
        proof {
            crate::parse::lemma_u32_le_bytes_round_trip(field.data@.subrange(0, 4));
            crate::parse::lemma_u16_le_bytes_round_trip(field.data@.subrange(6, 8));
            assert(v.spec_body() =~= field.data@);
            assert(v.serialized() =~= field.serialized());
        }
        Ok(v)
    }
}

/// One destruction stage: thresholds, behavior flags, and effects.
#[derive(Debug, Copy, Clone, PartialEq, Eq, Structural)]
pub struct DSTD {
    /// Health threshold, as a percentage
    pub health_percent: u16,
    /// Which stage this is
    pub damage_stage: u8,
    /// Stage behavior
    pub flags: DSTDFlags,
    /// Self-damage per second
    pub self_damage_rate: u32,
    /// Explosion played on entering the stage
    pub explosion_id: crate::records::formid::FormId,
    /// Debris spawned
    pub debris_id: crate::records::formid::FormId,
    /// How much debris
    pub debris_count: u32,
}

impl DSTD {
    /// This field's body bytes: its components' images, in order.
    pub open spec fn spec_body(&self) -> Seq<u8> {
        spec_u16_le(self.health_percent) + seq![self.damage_stage] + seq![self.flags.flags] + spec_u32_le(self.self_damage_rate) + spec_u32_le(self.explosion_id.id) + spec_u32_le(self.debris_id.id) + spec_u32_le(self.debris_count)
    }
}

impl StaticTypeNamed for DSTD {
    open spec fn spec_static_tag_name() -> Seq<u8> {
        seq![0x44u8, 0x53u8, 0x54u8, 0x44u8]
    }

    fn static_tag_name() -> (r: [u8; 4]) {
        let r = [0x44u8, 0x53u8, 0x54u8, 0x44u8];
        proof {
            assert(r@ =~= Self::spec_static_tag_name());
        }
        r
    }
}

impl Writable for DSTD {
    open spec fn serialized(&self) -> Seq<u8> {
        spec_field_image(Self::spec_static_tag_name(), self.spec_body())
    }

    fn write_to(&self, w: &mut Vec<u8>) {
        let tag = Self::static_tag_name();
        write_field_header(&tag, 20, w);
        self.health_percent.write_to(w);
        self.damage_stage.write_to(w);
        self.flags.flags.write_to(w);
        self.self_damage_rate.write_to(w);
        self.explosion_id.id.write_to(w);
        self.debris_id.id.write_to(w);
        self.debris_count.write_to(w);
        proof {
            assert(w@ =~= old(w)@ + self.serialized());
        }
    }
}

impl DataSize for DSTD {
    fn data_size(&self) -> (r: usize) {
        26
    }
}

impl FromField for DSTD {
    /// The body must be exactly 20 bytes.
    open spec fn spec_accepts(field: &GeneralField) -> bool {
        field.data@.len() == 20
    }

    /// Each component is the little-endian reading of its bytes.
    open spec fn spec_is_interp(field: &GeneralField, v: &DSTD) -> bool {
        v.health_percent == spec_u16_of_le(field.data@.subrange(0, 2))
            && v.damage_stage == field.data@[2]
            && v.flags.flags == field.data@[3]
            && v.self_damage_rate == spec_u32_of_le(field.data@.subrange(4, 8))
            && v.explosion_id.id == spec_u32_of_le(field.data@.subrange(8, 12))
            && v.debris_id.id == spec_u32_of_le(field.data@.subrange(12, 16))
            && v.debris_count == spec_u32_of_le(field.data@.subrange(16, 20))
    }

    open spec fn spec_reject_err(field: &GeneralField) -> FromFieldError {
        if field.data@.len() != 20 {
            FromFieldError::ParseError(
                ParseError::ExpectedExact {
                    expected: 20 as usize,
                    found: field.data@.len() as usize,
                },
            )
        } else {
            FromFieldError::ParseError(ParseError::InvalidEnumerationValue)
        }
    }

    fn from_field(field: &GeneralField) -> (r: Result<Self, FromFieldError>) {
        let n = field.data.len();
        if n != 20 {
            return Err(
                FromFieldError::ParseError(ParseError::ExpectedExact { expected: 20, found: n }),
            );
        }
        let body: &[u8] = field.data.as_slice();
        let (rest0, c_health_percent) = match crate::parse::le_u16(body) {
            Ok(p) => p,
            Err(e) => {
                return Err(FromFieldError::ParseError(e));
            },
        };
        proof {
            assert(body@.take(2) =~= field.data@.subrange(0, 2));
            assert(rest0@ =~= field.data@.skip(2));
        }
        let (rest1, c_damage_stage) = match crate::parse::single(rest0) {
            Ok(p) => p,
            Err(e) => {
                return Err(FromFieldError::ParseError(e));
            },
        };
        proof {
            assert(rest0@.take(1) =~= field.data@.subrange(2, 3));
            assert(rest1@ =~= field.data@.skip(3));
        }
        let (rest2, c_flags) = match crate::parse::single(rest1) {
            Ok(p) => p,
            Err(e) => {
                return Err(FromFieldError::ParseError(e));
            },
        };
        proof {
            assert(rest1@.take(1) =~= field.data@.subrange(3, 4));
            assert(rest2@ =~= field.data@.skip(4));
        }
        let (rest3, c_self_damage_rate) = match crate::parse::le_u32(rest2) {
            Ok(p) => p,
            Err(e) => {
                return Err(FromFieldError::ParseError(e));
            },
        };
        proof {
            assert(rest2@.take(4) =~= field.data@.subrange(4, 8));
            assert(rest3@ =~= field.data@.skip(8));
        }
        let (rest4, c_explosion_id) = match crate::parse::le_u32(rest3) {
            Ok(p) => p,
            Err(e) => {
                return Err(FromFieldError::ParseError(e));
            },
        };
        proof {
            assert(rest3@.take(4) =~= field.data@.subrange(8, 12));
            assert(rest4@ =~= field.data@.skip(12));
        }
        let (rest5, c_debris_id) = match crate::parse::le_u32(rest4) {
            Ok(p) => p,
            Err(e) => {
                return Err(FromFieldError::ParseError(e));
            },
        };
        proof {
            assert(rest4@.take(4) =~= field.data@.subrange(12, 16));
            assert(rest5@ =~= field.data@.skip(16));
        }
        let (rest6, c_debris_count) = match crate::parse::le_u32(rest5) {
            Ok(p) => p,
            Err(e) => {
                return Err(FromFieldError::ParseError(e));
            },
        };
        proof {
            assert(rest5@.take(4) =~= field.data@.subrange(16, 20));
            assert(rest6@ =~= field.data@.skip(20));
        }
        let v = DSTD { health_percent: c_health_percent, damage_stage: c_damage_stage, flags: DSTDFlags { flags: c_flags }, self_damage_rate: c_self_damage_rate, explosion_id: crate::records::formid::FormId { id: c_explosion_id }, debris_id: crate::records::formid::FormId { id: c_debris_id }, debris_count: c_debris_count };
        proof {
            crate::parse::lemma_u16_le_bytes_round_trip(field.data@.subrange(0, 2));
            crate::parse::lemma_u32_le_bytes_round_trip(field.data@.subrange(4, 8));
            crate::parse::lemma_u32_le_bytes_round_trip(field.data@.subrange(8, 12));
            crate::parse::lemma_u32_le_bytes_round_trip(field.data@.subrange(12, 16));
            crate::parse::lemma_u32_le_bytes_round_trip(field.data@.subrange(16, 20));
            assert(v.spec_body() =~= field.data@);
            assert(v.serialized() =~= field.serialized());
        }
        Ok(v)
    }
}


} // verus!

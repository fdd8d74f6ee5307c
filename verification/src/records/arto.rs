//! Typed pieces of art-object records: the art kind enumeration.
use crate::parse::{Parse, ParseError};
use crate::util::{DataSize, StaticDataSize, Writable};
use vstd::prelude::*;

verus! {

/// The kind of visual effect an art object plays.
#[derive(Debug, Copy, Clone, PartialEq, Eq, Structural)]
pub enum ArtType {
    MagicCasting,
    MagicHitEffect,
    EnchantmentEffect,
}

impl ArtType {
    /// The 32-bit value this choice writes.
    pub open spec fn spec_code(&self) -> u32 {
        match *self {
            ArtType::MagicCasting => 0,
            ArtType::MagicHitEffect => 1,
            ArtType::EnchantmentEffect => 2,
        }
    }

    /// Returns exactly `spec_code`.
    pub fn code(&self) -> (r: u32)
        ensures
            r == self.spec_code(),
    {
        match *self {
            ArtType::MagicCasting => 0,
            ArtType::MagicHitEffect => 1,
            ArtType::EnchantmentEffect => 2,
        }
    }

    /// The choice a value denotes, when in range.
    pub open spec fn spec_of_code(value: u32) -> Self {
        if value == 0 {
            ArtType::MagicCasting
        } else if value == 1 {
            ArtType::MagicHitEffect
        } else {
            ArtType::EnchantmentEffect
        }
    }

    /// The named choice for an in-range value, and the value itself in the
    /// error otherwise.
    pub fn try_from(value: u32) -> (r: Result<Self, crate::records::common::ConversionError<u32>>)
        ensures
            value < 3 ==> (r matches Ok(v) && v == Self::spec_of_code(value)),
            value >= 3 ==> (r matches Err(e) && e matches
                crate::records::common::ConversionError::InvalidEnumerationValue(x) && x == value),
    {
        match value {
            0 => Ok(ArtType::MagicCasting),
            1 => Ok(ArtType::MagicHitEffect),
            2 => Ok(ArtType::EnchantmentEffect),
            _ => Err(crate::records::common::ConversionError::InvalidEnumerationValue(value)),
        }
    }
}

impl Writable for ArtType {
    open spec fn serialized(&self) -> Seq<u8> {
        crate::parse::spec_u32_le(self.spec_code())
    }

    fn write_to(&self, w: &mut Vec<u8>) {
        let c = self.code();
        c.write_to(w);
    }
}

impl StaticDataSize for ArtType {
    open spec fn spec_static_size() -> nat {
        4
    }

    proof fn lemma_static_size(&self) {
    }

    fn static_data_size() -> (r: usize) {
        4
    }
}

impl DataSize for ArtType {
    fn data_size(&self) -> (r: usize) {
        4
    }
}

impl Parse for ArtType {
    open spec fn spec_size() -> nat {
        4
    }

    open spec fn spec_valid(s: Seq<u8>) -> bool {
        crate::parse::spec_u32_of_le(s) < 3
    }

    open spec fn spec_decode(s: Seq<u8>) -> ArtType {
        Self::spec_of_code(crate::parse::spec_u32_of_le(s))
    }

    proof fn lemma_encode_size(v: ArtType) {
        crate::parse::lemma_u32_le_round_trip(v.spec_code());
    }

    proof fn lemma_round_trip(v: ArtType) {
        crate::parse::lemma_u32_le_round_trip(v.spec_code());
    }

    proof fn lemma_bytes_round_trip(s: Seq<u8>) {
        crate::parse::lemma_u32_le_bytes_round_trip(s);
    }

    fn parse(data: &[u8]) -> (r: Result<(&[u8], Self), ParseError>) {
        let (rest, value) = match crate::parse::le_u32(data) {
            Ok(p) => p,
            Err(e) => {
                return Err(e);
            },
        };
        match Self::try_from(value) {
            Ok(v) => Ok((rest, v)),
            Err(_) => Err(ParseError::InvalidEnumerationValue),
        }
    }
}

} // verus!

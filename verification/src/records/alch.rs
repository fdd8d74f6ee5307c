//! Ingestible-item records: potions and food, with their enchanted-effect
//! chain, and the typed fields only they use.
use crate::fields::edid::EDID;
use crate::fields::item::{ICON, MICO, YNAM, ZNAM};
use crate::fields::kwda::{KSIZ, KWDACollection, KWDA};
use crate::fields::modl::{MODLCollection, MODL, MODT};
use crate::fields::obnd::OBND;
use crate::fields::full::FULL;
use crate::fields::{
    spec_field_image, write_field_header, FromField, FromFieldError, GeneralField,
};
use crate::parse::{
    spec_i16_le, spec_i16_of_le, spec_u16_le, spec_u16_of_le, spec_u32_le, spec_u32_of_le, Parse,
    ParseError,
};
use crate::records::common::{
    CommonRecordInfo, FromRecord, FromRecordError, GeneralRecord, StaticTypeNamed,
};
use crate::util::{spec_serialized_all, DataSize, StaticDataSize, Writable};
use vstd::prelude::*;

verus! {

/// Enchanted-item flags.
#[derive(Debug, Copy, Clone, PartialEq, Eq, Structural)]
pub struct ENITFlags {
    pub flags: u32,
}

impl ENITFlags {

    /// Whether the `0b1` bit is set.
    pub fn manual_calc(&self) -> (r: bool)
        ensures
            r == ((self.flags & 0b1) != 0),
    {
        (self.flags & 0b1) != 0
    }

    /// Whether the `0b10` bit is set.
    pub fn food(&self) -> (r: bool)
        ensures
            r == ((self.flags & 0b10) != 0),
    {
        (self.flags & 0b10) != 0
    }

    /// Whether the `0x10000` bit is set.
    pub fn medicine(&self) -> (r: bool)
        ensures
            r == ((self.flags & 0x10000) != 0),
    {
        (self.flags & 0x10000) != 0
    }

    /// Whether the `0x20000` bit is set.
    pub fn poison(&self) -> (r: bool)
        ensures
            r == ((self.flags & 0x20000) != 0),
    {
        (self.flags & 0x20000) != 0
    }
}

impl Writable for ENITFlags {
    open spec fn serialized(&self) -> Seq<u8> {
        crate::parse::spec_u32_le(self.flags)
    }

    fn write_to(&self, w: &mut Vec<u8>) {
        self.flags.write_to(w);
    }
}

impl StaticDataSize for ENITFlags {
    open spec fn spec_static_size() -> nat {
        4
    }

    proof fn lemma_static_size(&self) {
    }

    fn static_data_size() -> (r: usize) {
        4
    }
}

impl DataSize for ENITFlags {
    fn data_size(&self) -> (r: usize) {
        4
    }
}

impl Parse for ENITFlags {
    open spec fn spec_size() -> nat {
        4
    }

    open spec fn spec_valid(s: Seq<u8>) -> bool {
        true
    }

    open spec fn spec_decode(s: Seq<u8>) -> ENITFlags {
        ENITFlags { flags: crate::parse::spec_u32_of_le(s) }
    }

    proof fn lemma_encode_size(v: ENITFlags) {
        crate::parse::lemma_u32_le_round_trip(v.flags);
    }

    proof fn lemma_round_trip(v: ENITFlags) {
        crate::parse::lemma_u32_le_round_trip(v.flags);
    }

    proof fn lemma_bytes_round_trip(s: Seq<u8>) {
        crate::parse::lemma_u32_le_bytes_round_trip(s);
    }

    fn parse(data: &[u8]) -> (r: Result<(&[u8], Self), ParseError>) {
        match crate::parse::le_u32(data) {
            Ok((rem, flags)) => Ok((rem, Self { flags })),
            Err(e) => Err(e),
        }
    }
}

/// Enchanted-item data: value, flags, addiction, and use sound.
#[derive(Debug, Copy, Clone, PartialEq, Eq, Structural)]
pub struct ENIT {
    /// Base value
    pub potion_value: u32,
    /// Item flags
    pub flags: ENITFlags,
    /// Addiction applied
    pub addiction: crate::records::formid::FormId,
    /// Chance of addiction
    pub addiction_chance: u32,
    /// Sound played on use
    pub use_sound: crate::records::formid::FormId,
}

impl ENIT {
    /// This field's body bytes: its components' images, in order.
    pub open spec fn spec_body(&self) -> Seq<u8> {
        spec_u32_le(self.potion_value) + spec_u32_le(self.flags.flags) + spec_u32_le(self.addiction.id) + spec_u32_le(self.addiction_chance) + spec_u32_le(self.use_sound.id)
    }
}

impl StaticTypeNamed for ENIT {
    open spec fn spec_static_tag_name() -> Seq<u8> {
        seq![0x45u8, 0x4eu8, 0x49u8, 0x54u8]
    }

    fn static_tag_name() -> (r: [u8; 4]) {
        let r = [0x45u8, 0x4eu8, 0x49u8, 0x54u8];
        proof {
            assert(r@ =~= Self::spec_static_tag_name());
        }
        r
    }
}

impl Writable for ENIT {
    open spec fn serialized(&self) -> Seq<u8> {
        spec_field_image(Self::spec_static_tag_name(), self.spec_body())
    }

    fn write_to(&self, w: &mut Vec<u8>) {
        let tag = Self::static_tag_name();
        write_field_header(&tag, 20, w);
        self.potion_value.write_to(w);
        self.flags.flags.write_to(w);
        self.addiction.id.write_to(w);
        self.addiction_chance.write_to(w);
        self.use_sound.id.write_to(w);
        proof {
            assert(w@ =~= old(w)@ + self.serialized());
        }
    }
}

impl DataSize for ENIT {
    fn data_size(&self) -> (r: usize) {
        26
    }
}

impl FromField for ENIT {
    /// The body must be exactly 20 bytes.
    open spec fn spec_accepts(field: &GeneralField) -> bool {
        field.data@.len() == 20
    }

    /// Each component is the little-endian reading of its bytes.
    open spec fn spec_is_interp(field: &GeneralField, v: &ENIT) -> bool {
        v.potion_value == spec_u32_of_le(field.data@.subrange(0, 4))
            && v.flags.flags == spec_u32_of_le(field.data@.subrange(4, 8))
            && v.addiction.id == spec_u32_of_le(field.data@.subrange(8, 12))
            && v.addiction_chance == spec_u32_of_le(field.data@.subrange(12, 16))
            && v.use_sound.id == spec_u32_of_le(field.data@.subrange(16, 20))
    }

    open spec fn spec_reject_err(field: &GeneralField) -> FromFieldError {
        if field.data@.len() != 20 {
            FromFieldError::ParseError(
                ParseError::ExpectedExact {
                    expected: 20 as usize,
                    found: field.data@.len() as usize,
                },
            )
        } else {
            FromFieldError::ParseError(ParseError::InvalidEnumerationValue)
        }
    }

    fn from_field(field: &GeneralField) -> (r: Result<Self, FromFieldError>) {
        let n = field.data.len();
        if n != 20 {
            return Err(
                FromFieldError::ParseError(ParseError::ExpectedExact { expected: 20, found: n }),
            );
        }
        let body: &[u8] = field.data.as_slice();
        let (rest0, c_potion_value) = match crate::parse::le_u32(body) {
            Ok(p) => p,
            Err(e) => {
                return Err(FromFieldError::ParseError(e));
            },
        };
        proof {
            assert(body@.take(4) =~= field.data@.subrange(0, 4));
            assert(rest0@ =~= field.data@.skip(4));
        }
        let (rest1, c_flags) = match crate::parse::le_u32(rest0) {
            Ok(p) => p,
            Err(e) => {
                return Err(FromFieldError::ParseError(e));
            },
        };
        proof {
            assert(rest0@.take(4) =~= field.data@.subrange(4, 8));
            assert(rest1@ =~= field.data@.skip(8));
        }
        let (rest2, c_addiction) = match crate::parse::le_u32(rest1) {
            Ok(p) => p,
            Err(e) => {
                return Err(FromFieldError::ParseError(e));
            },
        };
        proof {
            assert(rest1@.take(4) =~= field.data@.subrange(8, 12));
            assert(rest2@ =~= field.data@.skip(12));
        }
        let (rest3, c_addiction_chance) = match crate::parse::le_u32(rest2) {
            Ok(p) => p,
            Err(e) => {
                return Err(FromFieldError::ParseError(e));
            },
        };
        proof {
            assert(rest2@.take(4) =~= field.data@.subrange(12, 16));
            assert(rest3@ =~= field.data@.skip(16));
        }
        let (rest4, c_use_sound) = match crate::parse::le_u32(rest3) {
            Ok(p) => p,
            Err(e) => {
                return Err(FromFieldError::ParseError(e));
            },
        };
        proof {
            assert(rest3@.take(4) =~= field.data@.subrange(16, 20));
            assert(rest4@ =~= field.data@.skip(20));
        }
        let v = ENIT { potion_value: c_potion_value, flags: ENITFlags { flags: c_flags }, addiction: crate::records::formid::FormId { id: c_addiction }, addiction_chance: c_addiction_chance, use_sound: crate::records::formid::FormId { id: c_use_sound } };
        proof {
            crate::parse::lemma_u32_le_bytes_round_trip(field.data@.subrange(0, 4));
            crate::parse::lemma_u32_le_bytes_round_trip(field.data@.subrange(4, 8));
            crate::parse::lemma_u32_le_bytes_round_trip(field.data@.subrange(8, 12));
            crate::parse::lemma_u32_le_bytes_round_trip(field.data@.subrange(12, 16));
            crate::parse::lemma_u32_le_bytes_round_trip(field.data@.subrange(16, 20));
            assert(v.spec_body() =~= field.data@);
            assert(v.serialized() =~= field.serialized());
        }
        Ok(v)
    }
}

/// Item weight, as raw IEEE 754 bits kept verbatim.
#[derive(Debug, Copy, Clone, PartialEq, Eq, Structural)]
pub struct DATA {
    /// Weight bits
    pub weight: crate::util::Float32,
}

impl DATA {
    /// This field's body bytes: its components' images, in order.
    pub open spec fn spec_body(&self) -> Seq<u8> {
        spec_u32_le(self.weight.bits)
    }
}

impl StaticTypeNamed for DATA {
    open spec fn spec_static_tag_name() -> Seq<u8> {
        seq![0x44u8, 0x41u8, 0x54u8, 0x41u8]
    }

    fn static_tag_name() -> (r: [u8; 4]) {
        let r = [0x44u8, 0x41u8, 0x54u8, 0x41u8];
        proof {
            assert(r@ =~= Self::spec_static_tag_name());
        }
        r
    }
}

impl Writable for DATA {
    open spec fn serialized(&self) -> Seq<u8> {
        spec_field_image(Self::spec_static_tag_name(), self.spec_body())
    }

    fn write_to(&self, w: &mut Vec<u8>) {
        let tag = Self::static_tag_name();
        write_field_header(&tag, 4, w);
        self.weight.bits.write_to(w);
        proof {
            assert(w@ =~= old(w)@ + self.serialized());
        }
    }
}

impl DataSize for DATA {
    fn data_size(&self) -> (r: usize) {
        10
    }
}

impl FromField for DATA {
    /// The body must be exactly 4 bytes.
    open spec fn spec_accepts(field: &GeneralField) -> bool {
        field.data@.len() == 4
    }

    /// Each component is the little-endian reading of its bytes.
    open spec fn spec_is_interp(field: &GeneralField, v: &DATA) -> bool {
        v.weight.bits == spec_u32_of_le(field.data@.subrange(0, 4))
    }

    open spec fn spec_reject_err(field: &GeneralField) -> FromFieldError {
        if field.data@.len() != 4 {
            FromFieldError::ParseError(
                ParseError::ExpectedExact {
                    expected: 4 as usize,
                    found: field.data@.len() as usize,
                },
            )
        } else {
            FromFieldError::ParseError(ParseError::InvalidEnumerationValue)
        }
    }

    fn from_field(field: &GeneralField) -> (r: Result<Self, FromFieldError>) {
        let n = field.data.len();
        if n != 4 {
            return Err(
                FromFieldError::ParseError(ParseError::ExpectedExact { expected: 4, found: n }),
            );
        }
        let body: &[u8] = field.data.as_slice();
        let (rest0, c_weight) = match crate::parse::le_u32(body) {
            Ok(p) => p,
            Err(e) => {
                return Err(FromFieldError::ParseError(e));
            },
        };
        proof {
            assert(body@.take(4) =~= field.data@.subrange(0, 4));
            assert(rest0@ =~= field.data@.skip(4));
        }
        let v = DATA { weight: crate::util::Float32 { bits: c_weight } };
        proof {
            crate::parse::lemma_u32_le_bytes_round_trip(field.data@.subrange(0, 4));
            assert(v.spec_body() =~= field.data@);
            assert(v.serialized() =~= field.serialized());
        }
        Ok(v)
    }
}

/// Effect reference: the magic effect this entry applies.
#[derive(Debug, Copy, Clone, PartialEq, Eq, Structural)]
pub struct EFID {
    /// The magic-effect record
    pub formid: crate::records::formid::FormId,
}

impl EFID {
    /// This field's body bytes: its components' images, in order.
    pub open spec fn spec_body(&self) -> Seq<u8> {
        spec_u32_le(self.formid.id)
    }
}

impl StaticTypeNamed for EFID {
    open spec fn spec_static_tag_name() -> Seq<u8> {
        seq![0x45u8, 0x46u8, 0x49u8, 0x44u8]
    }

    fn static_tag_name() -> (r: [u8; 4]) {
        let r = [0x45u8, 0x46u8, 0x49u8, 0x44u8];
        proof {
            assert(r@ =~= Self::spec_static_tag_name());
        }
        r
    }
}

impl Writable for EFID {
    open spec fn serialized(&self) -> Seq<u8> {
        spec_field_image(Self::spec_static_tag_name(), self.spec_body())
    }

    fn write_to(&self, w: &mut Vec<u8>) {
        let tag = Self::static_tag_name();
        write_field_header(&tag, 4, w);
        self.formid.id.write_to(w);
        proof {
            assert(w@ =~= old(w)@ + self.serialized());
        }
    }
}

impl DataSize for EFID {
    fn data_size(&self) -> (r: usize) {
        10
    }
}

impl FromField for EFID {
    /// The body must be exactly 4 bytes.
    open spec fn spec_accepts(field: &GeneralField) -> bool {
        field.data@.len() == 4
    }

    /// Each component is the little-endian reading of its bytes.
    open spec fn spec_is_interp(field: &GeneralField, v: &EFID) -> bool {
        v.formid.id == spec_u32_of_le(field.data@.subrange(0, 4))
    }

    open spec fn spec_reject_err(field: &GeneralField) -> FromFieldError {
        if field.data@.len() != 4 {
            FromFieldError::ParseError(
                ParseError::ExpectedExact {
                    expected: 4 as usize,
                    found: field.data@.len() as usize,
                },
            )
        } else {
            FromFieldError::ParseError(ParseError::InvalidEnumerationValue)
        }
    }

    fn from_field(field: &GeneralField) -> (r: Result<Self, FromFieldError>) {
        let n = field.data.len();
        if n != 4 {
            return Err(
                FromFieldError::ParseError(ParseError::ExpectedExact { expected: 4, found: n }),
            );
        }
        let body: &[u8] = field.data.as_slice();
        let (rest0, c_formid) = match crate::parse::le_u32(body) {
            Ok(p) => p,
            Err(e) => {
                return Err(FromFieldError::ParseError(e));
            },
        };
        proof {
            assert(body@.take(4) =~= field.data@.subrange(0, 4));
            assert(rest0@ =~= field.data@.skip(4));
        }
        let v = EFID { formid: crate::records::formid::FormId { id: c_formid } };
        proof {
            crate::parse::lemma_u32_le_bytes_round_trip(field.data@.subrange(0, 4));
            assert(v.spec_body() =~= field.data@);
            assert(v.serialized() =~= field.serialized());
        }
        Ok(v)
    }
}

/// Effect data: magnitude bits, area, and duration.
#[derive(Debug, Copy, Clone, PartialEq, Eq, Structural)]
pub struct EFIT {
    /// Magnitude, raw IEEE 754 bits kept verbatim
    pub magnitude: crate::util::Float32,
    /// Area of effect
    pub area_of_effect: u32,
    /// Duration; zero means instant
    pub duration: u32,
}

impl EFIT {
    /// This field's body bytes: its components' images, in order.
    pub open spec fn spec_body(&self) -> Seq<u8> {
        spec_u32_le(self.magnitude.bits) + spec_u32_le(self.area_of_effect) + spec_u32_le(self.duration)
    }
}

impl StaticTypeNamed for EFIT {
    open spec fn spec_static_tag_name() -> Seq<u8> {
        seq![0x45u8, 0x46u8, 0x49u8, 0x54u8]
    }

    fn static_tag_name() -> (r: [u8; 4]) {
        let r = [0x45u8, 0x46u8, 0x49u8, 0x54u8];
        proof {
            assert(r@ =~= Self::spec_static_tag_name());
        }
        r
    }
}

impl Writable for EFIT {
    open spec fn serialized(&self) -> Seq<u8> {
        spec_field_image(Self::spec_static_tag_name(), self.spec_body())
    }

    fn write_to(&self, w: &mut Vec<u8>) {
        let tag = Self::static_tag_name();
        write_field_header(&tag, 12, w);
        self.magnitude.bits.write_to(w);
        self.area_of_effect.write_to(w);
        self.duration.write_to(w);
        proof {
            assert(w@ =~= old(w)@ + self.serialized());
        }
    }
}

impl DataSize for EFIT {
    fn data_size(&self) -> (r: usize) {
        18
    }
}

impl FromField for EFIT {
    /// The body must be exactly 12 bytes.
    open spec fn spec_accepts(field: &GeneralField) -> bool {
        field.data@.len() == 12
    }

    /// Each component is the little-endian reading of its bytes.
    open spec fn spec_is_interp(field: &GeneralField, v: &EFIT) -> bool {
        v.magnitude.bits == spec_u32_of_le(field.data@.subrange(0, 4))
            && v.area_of_effect == spec_u32_of_le(field.data@.subrange(4, 8))
            && v.duration == spec_u32_of_le(field.data@.subrange(8, 12))
    }

    open spec fn spec_reject_err(field: &GeneralField) -> FromFieldError {
        if field.data@.len() != 12 {
            FromFieldError::ParseError(
                ParseError::ExpectedExact {
                    expected: 12 as usize,
                    found: field.data@.len() as usize,
                },
            )
        } else {
            FromFieldError::ParseError(ParseError::InvalidEnumerationValue)
        }
    }

    fn from_field(field: &GeneralField) -> (r: Result<Self, FromFieldError>) {
        let n = field.data.len();
        if n != 12 {
            return Err(
                FromFieldError::ParseError(ParseError::ExpectedExact { expected: 12, found: n }),
            );
        }
        let body: &[u8] = field.data.as_slice();
        let (rest0, c_magnitude) = match crate::parse::le_u32(body) {
            Ok(p) => p,
            Err(e) => {
                return Err(FromFieldError::ParseError(e));
            },
        };
        proof {
            assert(body@.take(4) =~= field.data@.subrange(0, 4));
            assert(rest0@ =~= field.data@.skip(4));
        }
        let (rest1, c_area_of_effect) = match crate::parse::le_u32(rest0) {
            Ok(p) => p,
            Err(e) => {
                return Err(FromFieldError::ParseError(e));
            },
        };
        proof {
            assert(rest0@.take(4) =~= field.data@.subrange(4, 8));
            assert(rest1@ =~= field.data@.skip(8));
        }
        let (rest2, c_duration) = match crate::parse::le_u32(rest1) {
            Ok(p) => p,
            Err(e) => {
                return Err(FromFieldError::ParseError(e));
            },
        };
        proof {
            assert(rest1@.take(4) =~= field.data@.subrange(8, 12));
            assert(rest2@ =~= field.data@.skip(12));
        }
        let v = EFIT { magnitude: crate::util::Float32 { bits: c_magnitude }, area_of_effect: c_area_of_effect, duration: c_duration };
        proof {
            crate::parse::lemma_u32_le_bytes_round_trip(field.data@.subrange(0, 4));
            crate::parse::lemma_u32_le_bytes_round_trip(field.data@.subrange(4, 8));
            crate::parse::lemma_u32_le_bytes_round_trip(field.data@.subrange(8, 12));
            assert(v.spec_body() =~= field.data@);
            assert(v.serialized() =~= field.serialized());
        }
        Ok(v)
    }
}


/// One enchanted effect: its item data, the effect reference and effect
/// data that must follow, and the condition fields chained behind them,
/// kept verbatim.
#[derive(Debug, Clone)]
pub struct EnchantedEffectCollection {
    pub enchanted_item: ENIT,
    pub effect_id: EFID,
    pub item: EFIT,
    /// Condition fields, tag CTDA, kept verbatim
    pub conditions: Vec<GeneralField>,
}


impl EnchantedEffectCollection {
    /// The condition tag whose fields chain behind the effect data.
    pub open spec fn spec_ctda_tag() -> Seq<u8> {
        seq![0x43u8, 0x54u8, 0x44u8, 0x41u8]
    }

    /// Folds the chain that continues an effect-data field: the effect
    /// reference and effect data that must immediately follow, then every
    /// adjacent condition field, kept verbatim. The cursor stops exactly on
    /// the first field past the condition run; the collection's byte image
    /// is the head's image followed by the consumed fields' own. Succeeds
    /// if and only if both mandatory continuations are next, in order, with
    /// bodies their types accept.
    pub fn collect(
        enchanted_item: ENIT,
        fields: &Vec<GeneralField>,
        pos: &mut usize,
    ) -> (r: Result<EnchantedEffectCollection, FromFieldError>)
        requires
            *old(pos) <= fields@.len(),
        ensures
            ({
                let p = *old(pos) as int;
                let ok = {
                    &&& p + 2 <= fields@.len()
                    &&& fields@[p].tag_name@ == EFID::spec_static_tag_name()
                    &&& EFID::spec_accepts(&fields@[p])
                    &&& fields@[p + 1].tag_name@ == EFIT::spec_static_tag_name()
                    &&& EFIT::spec_accepts(&fields@[p + 1])
                };
                &&& ((r is Ok) <==> ok)
                &&& (r matches Ok(c) ==> {
                    &&& p + 2 <= *final(pos) <= fields@.len()
                    &&& (*final(pos) == fields@.len() || fields@[*final(pos) as int].tag_name@
                        != Self::spec_ctda_tag())
                    &&& (forall|k: int|
                        p + 2 <= k < *final(pos) ==> (#[trigger] fields@[k]).tag_name@
                            == Self::spec_ctda_tag())
                    &&& c.enchanted_item == enchanted_item
                    &&& c.conditions@.len() == *final(pos) - (p + 2)
                    &&& c.serialized() == enchanted_item.serialized() + spec_serialized_all(
                        fields@.subrange(p, *final(pos) as int),
                    )
                })
            }),
    {
        let ghost p = *pos as int;
        let efid_tag = EFID::static_tag_name();
        if *pos >= fields.len() || !crate::util::tag_eq(&fields[*pos].tag_name, &efid_tag) {
            return Err(FromFieldError::ExpectedSpecificField([0x45u8, 0x46u8, 0x49u8, 0x44u8]));
        }
        let effect_id = match EFID::from_field(&fields[*pos]) {
            Ok(v) => v,
            Err(e) => {
                return Err(e);
            },
        };
        let efit_tag = EFIT::static_tag_name();
        if *pos + 1 >= fields.len() || !crate::util::tag_eq(
            &fields[*pos + 1].tag_name,
            &efit_tag,
        ) {
            return Err(FromFieldError::ExpectedSpecificField([0x45u8, 0x46u8, 0x49u8, 0x54u8]));
        }
        let item = match EFIT::from_field(&fields[*pos + 1]) {
            Ok(v) => v,
            Err(e) => {
                return Err(e);
            },
        };
        let ctda_tag = [0x43u8, 0x54u8, 0x44u8, 0x41u8];
        proof {
            assert(ctda_tag@ =~= Self::spec_ctda_tag());
        }
        let j = crate::records::common::find_chain_end(fields, *pos + 2, &ctda_tag);
        let mut conditions: Vec<GeneralField> = Vec::new();
        let mut k: usize = *pos + 2;
        while k < j
            invariant
                0 <= p,
                p + 2 <= k <= j <= fields@.len(),
                conditions@.len() == k - (p + 2),
                spec_serialized_all(conditions@) == spec_serialized_all(
                    fields@.subrange(p + 2, k as int),
                ),
            decreases j - k,
        {
            let cf = fields[k].duplicate();
            proof {
                crate::util::lemma_serialized_all_push(conditions@, cf);
                crate::util::lemma_serialized_all_push(
                    fields@.subrange(p + 2, k as int),
                    fields@[k as int],
                );
                assert(fields@.subrange(p + 2, k as int).push(fields@[k as int])
                    =~= fields@.subrange(p + 2, k + 1));
            }
            conditions.push(cf);
            k += 1;
        }
        *pos = j;
        let c = EnchantedEffectCollection { enchanted_item, effect_id, item, conditions };
        proof {
            crate::util::lemma_serialized_all_snoc(fields@.subrange(p, j as int), 0);
            crate::util::lemma_serialized_all_snoc(fields@.subrange(p, j as int), 1);
            assert(fields@.subrange(p, j as int).take(0) =~= Seq::<GeneralField>::empty());
            assert(fields@.subrange(p, j as int).take(2).skip(2) =~= Seq::<GeneralField>::empty());
            lemma_effect_chain_image(fields@, p, j as int);
            assert(c.serialized() =~= enchanted_item.serialized() + spec_serialized_all(
                fields@.subrange(p, j as int),
            ));
        }
        Ok(c)
    }
}

/// The image of a consumed chain splits as its first two fields' images
/// followed by the condition run's.
proof fn lemma_effect_chain_image(fields: Seq<GeneralField>, p: int, j: int)
    requires
        0 <= p,
        p + 2 <= j <= fields.len(),
    ensures
        spec_serialized_all(fields.subrange(p, j)) == fields[p].serialized() + (fields[p
            + 1].serialized() + spec_serialized_all(fields.subrange(p + 2, j))),
{
    let s = fields.subrange(p, j);
    assert(s.skip(1) =~= fields.subrange(p + 1, j));
    assert(fields.subrange(p + 1, j).skip(1) =~= fields.subrange(p + 2, j));
    assert(s[0] == fields[p]);
    assert(fields.subrange(p + 1, j)[0] == fields[p + 1]);
    assert(spec_serialized_all(s) == s[0].serialized() + spec_serialized_all(s.skip(1)));
    assert(spec_serialized_all(fields.subrange(p + 1, j)) == fields[p + 1].serialized()
        + spec_serialized_all(fields.subrange(p + 2, j)));
}

impl Writable for EnchantedEffectCollection {
    /// The four pieces' images, in wire order.
    open spec fn serialized(&self) -> Seq<u8> {
        self.enchanted_item.serialized() + self.effect_id.serialized() + self.item.serialized()
            + spec_serialized_all(self.conditions@)
    }

    fn write_to(&self, w: &mut Vec<u8>) {
        proof {
            crate::util::lemma_serialized_all_prefix_len(self.conditions@, 0);
        }
        self.enchanted_item.write_to(w);
        self.effect_id.write_to(w);
        self.item.write_to(w);
        self.conditions.write_to(w);
        proof {
            assert(w@ =~= old(w)@ + self.serialized());
        }
    }
}

impl DataSize for EnchantedEffectCollection {
    fn data_size(&self) -> (r: usize) {
        proof {
            crate::util::lemma_serialized_all_prefix_len(self.conditions@, 0);
        }
        26 + 10 + 18 + self.conditions.data_size()
    }
}

/// One classified field of an ingestible record, in its wire position;
/// chained units occupy one entry.
#[derive(Debug, Clone)]
pub enum ALCHField {
    EDID(EDID),
    OBND(OBND),
    FULL(FULL),
    KWDACollection(KWDACollection),
    MODLCollection(MODLCollection),
    ICON(ICON),
    MICO(MICO),
    YNAM(YNAM),
    ZNAM(ZNAM),
    DATA(DATA),
    EnchantedEffectCollection(EnchantedEffectCollection),
    Unknown(GeneralField),
}

impl Writable for ALCHField {
    open spec fn serialized(&self) -> Seq<u8> {
        match *self {
            ALCHField::EDID(f) => f.serialized(),
            ALCHField::OBND(f) => f.serialized(),
            ALCHField::FULL(f) => f.serialized(),
            ALCHField::KWDACollection(f) => f.serialized(),
            ALCHField::MODLCollection(f) => f.serialized(),
            ALCHField::ICON(f) => f.serialized(),
            ALCHField::MICO(f) => f.serialized(),
            ALCHField::YNAM(f) => f.serialized(),
            ALCHField::ZNAM(f) => f.serialized(),
            ALCHField::DATA(f) => f.serialized(),
            ALCHField::EnchantedEffectCollection(f) => f.serialized(),
            ALCHField::Unknown(f) => f.serialized(),
        }
    }

    fn write_to(&self, w: &mut Vec<u8>) {
        match self {
            ALCHField::EDID(f) => f.write_to(w),
            ALCHField::OBND(f) => f.write_to(w),
            ALCHField::FULL(f) => f.write_to(w),
            ALCHField::KWDACollection(f) => f.write_to(w),
            ALCHField::MODLCollection(f) => f.write_to(w),
            ALCHField::ICON(f) => f.write_to(w),
            ALCHField::MICO(f) => f.write_to(w),
            ALCHField::YNAM(f) => f.write_to(w),
            ALCHField::ZNAM(f) => f.write_to(w),
            ALCHField::DATA(f) => f.write_to(w),
            ALCHField::EnchantedEffectCollection(f) => f.write_to(w),
            ALCHField::Unknown(f) => f.write_to(w),
        }
    }
}

impl DataSize for ALCHField {
    fn data_size(&self) -> (r: usize) {
        match self {
            ALCHField::EDID(f) => f.data_size(),
            ALCHField::OBND(f) => f.data_size(),
            ALCHField::FULL(f) => f.data_size(),
            ALCHField::KWDACollection(f) => f.data_size(),
            ALCHField::MODLCollection(f) => f.data_size(),
            ALCHField::ICON(f) => f.data_size(),
            ALCHField::MICO(f) => f.data_size(),
            ALCHField::YNAM(f) => f.data_size(),
            ALCHField::ZNAM(f) => f.data_size(),
            ALCHField::DATA(f) => f.data_size(),
            ALCHField::EnchantedEffectCollection(f) => f.data_size(),
            ALCHField::Unknown(f) => f.data_size(),
        }
    }
}

} // verus!

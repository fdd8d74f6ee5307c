//! Flag words, closed enumerations and their fallback behavior, and the
//! folded collections' cursor protocol.
use esm::fields::dest::{DSTDFlags, DEST, DSTD};
use esm::fields::item::{ArmorSkill, Gold, Quality, QUAL};
use esm::fields::kwda::{KWDACollection, KSIZ};
use esm::fields::modl::{MODLCollection, MODL};
use esm::fields::GeneralField;
use esm::parse::{Parse, ParseError};
use esm::records::achr::{LevelModifier, XAPDFlags, XESPFlags, XESP, XLKR};
use esm::records::alch::{EnchantedEffectCollection, ENITFlags, ENIT};
use esm::records::ammo::DATAFlags;
use esm::records::arto::ArtType;
use esm::records::avif::{SkillCategory, CNAM};
use esm::fields::FromField;
use esm::records::common::ConversionError;
use esm::records::formid::FormId;
use esm::records::null_terminated_string::NullTerminatedString;
use esm::util::{DataSize, Writable};

#[test]
fn enit_flags_read_their_bits() {
    let f = ENITFlags { flags: 0b10 | 0x20000 };
    assert!(!f.manual_calc());
    assert!(f.food());
    assert!(!f.medicine());
    assert!(f.poison());
}

#[test]
fn ammo_data_flags_read_their_bits() {
    let f = DATAFlags { flags: 0b101 };
    assert!(f.ignores_weapon_resistance());
    assert!(!f.non_playable());
    assert!(f.is_arrow());
    assert!(!f.is_bolt());
    let g = DATAFlags { flags: 0 };
    assert!(g.is_bolt());
}

#[test]
fn reference_link_flags_read_their_bits() {
    let a = XAPDFlags::new(0b1);
    assert!(a.is_parent_activate_only());
    let e = XESPFlags::new(0b10);
    assert!(!e.is_set_enable_state_opposite());
    assert!(e.is_pop_in());
    let xesp = XESP { parent: FormId::new(0x10), flags: e };
    let mut out = Vec::new();
    xesp.write_to(&mut out);
    assert_eq!(out, [0x10, 0, 0, 0, 0b10, 0, 0, 0]);
    let xlkr = XLKR { keyword: FormId::new(1), reference: FormId::new(2) };
    assert_eq!(xlkr.data_size(), 8);
}

#[test]
fn dstd_flags_read_their_bits() {
    let f = DSTDFlags { flags: 0b1010 };
    assert!(!f.cap_damage());
    assert!(f.disable_object());
    assert!(!f.destroy_object());
    assert!(f.ignore_external_damage());
}

#[test]
fn level_modifier_covers_known_values_only() {
    assert_eq!(LevelModifier::from_u32(0), Some(LevelModifier::Easy));
    assert_eq!(LevelModifier::from_u32(3), Some(LevelModifier::VeryHard));
    assert_eq!(LevelModifier::from_u32(4), None);
    assert_eq!(LevelModifier::Hard.code(), 2);
}

#[test]
fn closed_enumerations_reject_out_of_range_values() {
    assert!(matches!(Quality::try_from(4), Ok(Quality::Master)));
    assert!(matches!(
        Quality::try_from(5),
        Err(ConversionError::InvalidEnumerationValue(5))
    ));
    assert!(matches!(ArmorSkill::try_from(2), Ok(ArmorSkill::NoArmor)));
    assert!(matches!(ArtType::try_from(1), Ok(ArtType::MagicHitEffect)));
    assert_eq!(ArtType::MagicHitEffect.code(), 1);
    assert!(matches!(SkillCategory::try_from(3), Ok(SkillCategory::Stealth)));
    assert_eq!(SkillCategory::Stealth.code(), 3);
    // the decoder surfaces the same rejection as a structured parse error
    assert!(matches!(
        Quality::parse(&9u32.to_le_bytes()),
        Err(ParseError::InvalidEnumerationValue)
    ));
    let (_, q) = Quality::parse(&2u32.to_le_bytes()).unwrap();
    assert_eq!(q, Quality::Journeyman);
    let (_, gold) = Gold::parse(&400u32.to_le_bytes()).unwrap();
    assert_eq!(gold, Gold(400));
    let qual = QUAL { quality: Quality::Expert };
    let mut out = Vec::new();
    qual.write_to(&mut out);
    assert_eq!(&out[..4], b"QUAL");
    assert_eq!(&out[6..], 3u32.to_le_bytes());
}

#[test]
fn destruction_fields_round_their_sizes() {
    let dest = DEST { health: 100, count: 2, flags: 1, unknown: 0 };
    let mut out = Vec::new();
    dest.write_to(&mut out);
    assert_eq!(out.len(), dest.data_size());
    assert_eq!(&out[..4], b"DEST");
    let dstd = DSTD {
        health_percent: 50,
        damage_stage: 1,
        flags: DSTDFlags { flags: 0b1 },
        self_damage_rate: 5,
        explosion_id: FormId::new(7),
        debris_id: FormId::new(8),
        debris_count: 3,
    };
    let mut out = Vec::new();
    dstd.write_to(&mut out);
    assert_eq!(out.len(), dstd.data_size());
}

#[test]
fn keyword_collection_recomputes_its_count() {
    // a KSIZ declaring two keywords, then the array with exactly two
    let fields = vec![GeneralField::new(
        *b"KWDA",
        [5u32.to_le_bytes(), 9u32.to_le_bytes()].concat(),
    )];
    let ksiz = KSIZ { amount: 2 };
    let mut pos = 0usize;
    let c = KWDACollection::collect(ksiz, &fields, &mut pos).unwrap();
    assert_eq!(pos, 1);
    assert_eq!(c.create_ksiz().amount, 2);
    let mut out = Vec::new();
    c.write_to(&mut out);
    // the written image is the recomputed count field, then the array
    assert_eq!(&out[..4], b"KSIZ");
    assert_eq!(&out[6..10], 2u32.to_le_bytes());
    assert_eq!(&out[10..14], b"KWDA");
    assert_eq!(out.len(), c.data_size());
    // a mismatched array is rejected, naming the exact expected width
    let short = vec![GeneralField::new(*b"KWDA", 5u32.to_le_bytes().to_vec())];
    let mut pos = 0usize;
    assert!(KWDACollection::collect(KSIZ { amount: 2 }, &short, &mut pos).is_err());
}

#[test]
fn model_collection_consumes_its_chained_data() {
    let fields = vec![
        GeneralField::new(*b"MODT", vec![1, 2, 3]),
        GeneralField::new(*b"ZZZZ", vec![]),
    ];
    let model = MODL { filename: NullTerminatedString::new(b"m.nif".to_vec()) };
    let mut pos = 0usize;
    let c = MODLCollection::collect(model, &fields, &mut pos).unwrap();
    assert_eq!(pos, 1, "the data field is consumed, the unrelated one is not");
    assert!(c.texture_data.is_some());
    let model2 = MODL { filename: NullTerminatedString::new(b"m.nif".to_vec()) };
    let mut pos2 = 1usize;
    let c2 = MODLCollection::collect(model2, &fields, &mut pos2).unwrap();
    assert_eq!(pos2, 1, "no data field follows, so nothing is consumed");
    assert!(c2.texture_data.is_none());
}

#[test]
fn category_field_keeps_out_of_range_values() {
    // an out-of-range category neither fails nor loses the value
    let field = GeneralField::new(*b"CNAM", 99u32.to_le_bytes().to_vec());
    let v = CNAM::from_field(&field).unwrap();
    assert!(matches!(v, CNAM::Unknown(99)));
    let mut out = Vec::new();
    v.write_to(&mut out);
    assert_eq!(&out[6..], 99u32.to_le_bytes());
    // a known value becomes its named category
    let field = GeneralField::new(*b"CNAM", 2u32.to_le_bytes().to_vec());
    let v = CNAM::from_field(&field).unwrap();
    assert!(matches!(v, CNAM::SkillCategory(SkillCategory::Magic)));
}

#[test]
fn effect_chain_consumes_its_mandatory_and_chained_fields() {
    let enit = ENIT {
        potion_value: 400,
        flags: ENITFlags { flags: 0 },
        addiction: FormId::new(0),
        addiction_chance: 0,
        use_sound: FormId::new(0),
    };
    // reference, data, two conditions, then an unrelated tag
    let fields = vec![
        GeneralField::new(*b"EFID", 7u32.to_le_bytes().to_vec()),
        GeneralField::new(*b"EFIT", vec![0u8; 12]),
        GeneralField::new(*b"CTDA", vec![1, 2, 3]),
        GeneralField::new(*b"CTDA", vec![4, 5]),
        GeneralField::new(*b"ZZZZ", vec![]),
    ];
    let mut pos = 0usize;
    let c = EnchantedEffectCollection::collect(enit, &fields, &mut pos).unwrap();
    assert_eq!(pos, 4, "the cursor stops exactly on the unrelated tag");
    assert_eq!(c.conditions.len(), 2);
    assert_eq!(c.effect_id.formid, FormId::new(7));
    let mut out = Vec::new();
    c.write_to(&mut out);
    assert_eq!(out.len(), c.data_size());
    // a chain whose mandatory effect data is missing is rejected
    let enit2 = ENIT {
        potion_value: 400,
        flags: ENITFlags { flags: 0 },
        addiction: FormId::new(0),
        addiction_chance: 0,
        use_sound: FormId::new(0),
    };
    let short = vec![GeneralField::new(*b"EFID", 7u32.to_le_bytes().to_vec())];
    let mut pos2 = 0usize;
    assert!(EnchantedEffectCollection::collect(enit2, &short, &mut pos2).is_err());
}

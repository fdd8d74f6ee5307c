//! The typed field and record shapes: computed sizes always match written
//! lengths, and the written bytes are exactly the wire format.
use esm::fields::edid::EDID;
use esm::fields::item::{ArmorSkill, BOD2, BODT, BODTFlags, BodyPartNodeFlags};
use esm::fields::modl::{MODL, MODT};
use esm::fields::obnd::OBND;
use esm::fields::rgbu::RGBU;
use esm::fields::GeneralField;
use esm::records::aact::AACTRecord;
use esm::records::alch::{ENITFlags, ENIT};
use esm::records::common::{CommonRecordInfo, RecordFlags};
use esm::records::formid::FormId;
use esm::records::full_string::FullString;
use esm::records::null_terminated_string::NullTerminatedString;
use esm::records::tes4::ONAM;
use esm::records::version_control_info::VersionControlInfo;
use esm::records::windows1252_string::Windows1252String16;
use esm::util::{DataSize, Position3, Writable};

/// Writes the value and checks the computed size against the written
/// length, returning the bytes.
fn size_output<T: Writable + DataSize>(v: &T) -> Vec<u8> {
    let mut data = Vec::new();
    let data_size = v.data_size();
    v.write_to(&mut data);
    assert_eq!(data_size, data.len());
    data
}

#[test]
fn test_formid() {
    let formid = FormId::new(0xaa44926b);
    assert_eq!(formid.data_size(), 4);
    let mut data = Vec::new();
    formid.write_to(&mut data);
    println!("data: {:?}", data);
    assert_eq!(data.len(), 4);
    assert_eq!(data[0], 0x6b);
    assert_eq!(data[1], 0x92);
    assert_eq!(data[2], 0x44);
    assert_eq!(data[3], 0xaa);
}

#[test]
fn test_record_flags() {
    let r = RecordFlags::new(0x9942649a);
    let data = size_output(&r);
    assert_eq!(data[0], 0x9a);
    assert_eq!(data[1], 0x64);
    assert_eq!(data[2], 0x42);
    assert_eq!(data[3], 0x99);
}

#[test]
fn test_cri() {
    let c = CommonRecordInfo::test_default();
    size_output(&c);
}

#[test]
fn test_vci() {
    let v = VersionControlInfo { day: 5, month: 7, last_user_id: 0xaa, current_user_id: 0x30 };
    let data = size_output(&v);
    assert_eq!(data[0], 0x05);
    assert_eq!(data[1], 0x07);
    assert_eq!(data[2], 0xaa);
    assert_eq!(data[3], 0x30);
}

#[test]
fn null_terminated_string_test_nstring() {
    let s = NullTerminatedString::new(b"Test".to_vec());
    assert_eq!(s.data_size(), 5);
    let mut data = Vec::new();
    s.write_to(&mut data);
    assert_eq!(data.data_size(), 5);
    assert_eq!(data[0], b'T');
    assert_eq!(data[1], b'e');
    assert_eq!(data[2], b's');
    assert_eq!(data[3], b't');
    assert_eq!(data[4], 0x00);
}

#[test]
fn full_string_test_nstring() {
    let s = FullString::new(b"Test".to_vec());
    assert_eq!(s.data_size(), 4);
    let mut data = Vec::new();
    s.write_to(&mut data);
    assert_eq!(data.data_size(), 4);
    assert_eq!(data[0], b'T');
    assert_eq!(data[1], b'e');
    assert_eq!(data[2], b's');
    assert_eq!(data[3], b't');
}

#[test]
fn test_wstring() {
    let w = Windows1252String16::new(b"Test".to_vec());
    assert_eq!(w.data_size(), 6);
    let mut data = Vec::new();
    w.write_to(&mut data);
    assert_eq!(data.data_size(), 6);
    assert_eq!(data[0], 0x04);
    assert_eq!(data[1], 0x00);
    assert_eq!(data[2], b'T');
    assert_eq!(data[3], b'e');
    assert_eq!(data[4], b's');
    assert_eq!(data[5], b't');
}

#[test]
fn formid_wrap_test_formid() {
    let inst = esm::fields::formid_wrap::Test::new(FormId::new(0x429640aa));
    size_output(&inst);
}

#[test]
fn test_bodt() {
    let bodt = BODT {
        part_node_flags: BodyPartNodeFlags { flags: 0x0 },
        flags: BODTFlags { flags: 0x0 },
        unknown: [0, 0, 0],
        skill: Some(ArmorSkill::HeavyArmor),
    };
    size_output(&bodt);
}

#[test]
fn test_bod2() {
    let bod2 = BOD2 {
        part_node_flags: BodyPartNodeFlags { flags: 0x0 },
        skill: ArmorSkill::HeavyArmor,
    };
    size_output(&bod2);
}

#[test]
fn general_field_test() {
    let field = GeneralField::new(
        *b"NEMO",
        vec![0x1, 0x2, 0x3, 0x4, 0x5, 0x6, 0x7, 0x8, 0x9, 0xa, 0xb, 0xc],
    );
    size_output(&field);
}

#[test]
fn rgbu_check() {
    let rgbu = RGBU { red: 0x10, green: 0x24, blue: 0x92, unused: 0x00 };
    size_output(&rgbu);
}

#[test]
fn rgbu_rgbu_check() {
    let rgbu = RGBU { red: 0x10, green: 0x24, blue: 0x92, unused: 0x00 };
    size_output(&rgbu);
}

#[test]
fn edid_test() {
    let edid = EDID { id: NullTerminatedString::new(b"Hello mortal".to_vec()) };
    size_output(&edid);
}

#[test]
fn modl_test() {
    let modl = MODL { filename: NullTerminatedString::new(b"omega_model".to_vec()) };
    size_output(&modl);
}

#[test]
fn modt_test() {
    let modt = MODT { values: vec![49, 64, 52, 92, 40, 50, 92, 200, 40, 10, 12, 14] };
    size_output(&modt);
}

#[test]
fn obnd_test() {
    let obnd = OBND::new(Position3::new(4, 5, 9), Position3::new(52, 566, 42));
    size_output(&obnd);
}

#[test]
fn test_onam() {
    let onam = ONAM { overrides: vec![FormId::new(0x4292), FormId::new(0x664a)] };
    size_output(&onam);
}

#[test]
fn test_enit() {
    let enit = ENIT {
        potion_value: 0xaabbccdd,
        flags: ENITFlags { flags: 0x0 },
        addiction: FormId::new(0x1054aa66),
        addiction_chance: 0x1,
        use_sound: FormId::new(0x0),
    };
    let body = size_output(&enit);
    assert_eq!(&body[..4], b"ENIT");
    assert_eq!(body[4..6], ((4 + 4 + 4 + 4 + 4) as u16).to_le_bytes());
    assert_eq!(
        &body[6..],
        [
            0xdd, 0xcc, 0xbb, 0xaa, 0x0, 0x0, 0x0, 0x0, 0x66, 0xaa, 0x54, 0x10, 0x1, 0x0, 0x0,
            0x0, 0x0, 0x0, 0x0, 0x0
        ]
    );
}

#[test]
fn alch_test_data() {
    let weight = 4.29f32;
    let data = esm::records::alch::DATA { weight: esm::util::Float32 { bits: weight.to_bits() } };
    let body = size_output(&data);
    assert_eq!(&body[..4], b"DATA");
    assert_eq!(body[4..6], 4u16.to_le_bytes());
    assert_eq!(body[6..], weight.to_le_bytes());
}

#[test]
fn test_efit() {
    let magnitude = 4.29f32;
    let area_of_effect = 5529582u32;
    let duration = 5u32;
    let efit = esm::records::alch::EFIT {
        magnitude: esm::util::Float32 { bits: magnitude.to_bits() },
        area_of_effect,
        duration,
    };
    let body = size_output(&efit);
    assert_eq!(&body[..4], b"EFIT");
    assert_eq!(body[4..6], ((4 + 4 + 4) as u16).to_le_bytes());
    assert_eq!(&body[6..10], magnitude.to_le_bytes());
    assert_eq!(&body[10..14], area_of_effect.to_le_bytes());
    assert_eq!(&body[14..18], duration.to_le_bytes());
}

#[test]
fn aactrecord_check() {
    let record = AACTRecord {
        common: CommonRecordInfo::test_default(),
        action_name_index: None,
        rgb_index: None,
        fields: vec![],
    };
    println!("{:#?}", record);
    size_output(&record);
}

#[test]
fn data_size_slice() {
    let data: Vec<u32> = vec![42, 92, 5, 4, 92];
    assert_eq!(data.data_size(), 20);
}

#[test]
fn data_slice_vec() {
    let data: Vec<u32> = vec![42, 92, 5, 4, 92];
    assert_eq!(data.data_size(), 20);
}

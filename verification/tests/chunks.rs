//! End-to-end chunk behavior: byte-for-byte round trips, stable re-parse,
//! dispatch with graceful fallback, and the chained-collection protocol.
use esm::fields::GeneralField;
use esm::groups::common::{GeneralGroup, GroupType};
use esm::records::aact::{AACTField, AACTRecord};
use esm::records::common::{FieldList, FromRecord, FromRecordError, GeneralRecord};
use esm::records::formid::FormId;
use esm::util::{DataSize, Writable};
use esm::{parse_file, parse_top_level, GeneralTop, Record, Top};

/// A field chunk: tag, 2-byte length, body.
fn field_bytes(tag: &[u8; 4], body: &[u8]) -> Vec<u8> {
    let mut v = Vec::new();
    v.extend_from_slice(tag);
    v.extend_from_slice(&(body.len() as u16).to_le_bytes());
    v.extend_from_slice(body);
    v
}

/// A record chunk with fixed common info: tag, 4-byte body length, 16 bytes
/// of metadata, then the fields.
fn record_bytes(tag: &[u8; 4], fields: &[u8]) -> Vec<u8> {
    let mut v = Vec::new();
    v.extend_from_slice(tag);
    v.extend_from_slice(&(fields.len() as u32).to_le_bytes());
    v.extend_from_slice(&0x9942649au32.to_le_bytes()); // flags
    v.extend_from_slice(&0x420u32.to_le_bytes()); // form id
    v.extend_from_slice(&[9, 7, 42, 0]); // version control
    v.extend_from_slice(&4u16.to_le_bytes()); // version
    v.extend_from_slice(&1u16.to_le_bytes()); // unknown
    v.extend_from_slice(fields);
    v
}

/// A group chunk: the sentinel, the total length counting the 24-byte
/// header, label, kind, metadata, body.
fn group_bytes(label: &[u8; 4], kind: i32, body: &[u8]) -> Vec<u8> {
    let mut v = Vec::new();
    v.extend_from_slice(b"GRUP");
    v.extend_from_slice(&((24 + body.len()) as u32).to_le_bytes());
    v.extend_from_slice(label);
    v.extend_from_slice(&kind.to_le_bytes());
    v.extend_from_slice(&[9, 7, 42, 0]); // version control
    v.extend_from_slice(&0u32.to_le_bytes()); // unknown
    v.extend_from_slice(body);
    v
}

fn write_all(tops: &[Top]) -> Vec<u8> {
    let mut out = Vec::new();
    for t in tops {
        t.write_to(&mut out);
    }
    out
}

#[test]
fn minimal_known_record_round_trips_and_slots_read_back() {
    // a minimal action record: an editor id and a colour
    let mut fields = field_bytes(b"EDID", b"SomeAction\0");
    fields.extend_from_slice(&field_bytes(b"CNAM", &[0x10, 0x24, 0x92, 0x00]));
    let data = record_bytes(b"AACT", &fields);
    let tops = parse_file(&data).unwrap();
    assert_eq!(tops.len(), 1);
    match &tops[0] {
        Top::Record(Record::AACT(rec)) => {
            assert_eq!(rec.action_name_index, Some(0));
            assert_eq!(rec.rgb_index, Some(1));
            match &rec.fields[0] {
                AACTField::EDID(e) => assert_eq!(e.id.value, b"SomeAction".to_vec()),
                other => panic!("expected an editor id, got {:?}", other),
            }
            match &rec.fields[1] {
                AACTField::CNAM(c) => {
                    assert_eq!(c.color.red, 0x10);
                    assert_eq!(c.color.green, 0x24);
                    assert_eq!(c.color.blue, 0x92);
                    assert_eq!(c.color.unused, 0x00);
                },
                other => panic!("expected a colour, got {:?}", other),
            }
            assert_eq!(rec.data_size(), data.len());
        },
        other => panic!("expected a concrete action record, got {:?}", other),
    }
    assert_eq!(write_all(&tops), data);
}

#[test]
fn unknown_top_level_tag_preserved() {
    // a record and a group that no concrete decoder covers
    let rec = record_bytes(b"ZZZZ", &field_bytes(b"ABCD", &[1, 2, 3]));
    let grp = group_bytes(b"QQQQ", 7, &[]);
    let mut data = rec.clone();
    data.extend_from_slice(&grp);
    let tops = parse_file(&data).unwrap();
    assert_eq!(tops.len(), 2);
    assert!(matches!(&tops[0], Top::Record(Record::Unknown(_))));
    assert!(matches!(&tops[1], Top::Group(esm::Group::Unknown(_))));
    assert_eq!(write_all(&tops), data);
}

#[test]
fn reparse_of_written_output_is_stable() {
    let mut data = record_bytes(b"AACT", &field_bytes(b"EDID", b"Once\0"));
    data.extend_from_slice(&record_bytes(b"ZZZZ", &[]));
    data.extend_from_slice(&group_bytes(b"AACT", 0, &record_bytes(b"AACT", &[])));
    let first = parse_file(&data).unwrap();
    let out1 = write_all(&first);
    assert_eq!(out1, data);
    let second = parse_file(&out1).unwrap();
    let out2 = write_all(&second);
    assert_eq!(out2, out1);
    assert_eq!(format!("{:?}", first), format!("{:?}", second));
}

#[test]
fn group_total_length_includes_header() {
    let body = record_bytes(b"AACT", &[]);
    let data = group_bytes(b"AACT", 0, &body);
    // the parsed body span is total_len - 24 bytes
    let (rest, g) = GeneralGroup::parse(&data).unwrap();
    assert!(rest.is_empty());
    assert_eq!(g.data.len(), body.len());
    assert_eq!(g.data_size(), 24 + body.len());
    // re-writing recomputes total_len as 24 + size(children)
    let tops = parse_file(&data).unwrap();
    let out = write_all(&tops);
    assert_eq!(out[4..8], ((24 + body.len()) as u32).to_le_bytes());
    assert_eq!(out, data);
}

#[test]
fn group_kind_fallback_keeps_raw_discriminant() {
    // an out-of-range discriminant decodes to the unknown kind, not an error
    let data = group_bytes(b"WXYZ", 77, &[]);
    let (_, g) = GeneralGroup::parse(&data).unwrap();
    assert_eq!(g.group_type.get_name(), 77);
    assert_eq!(&g.group_type.get_label(), b"WXYZ");
    // and re-encodes to the same discriminant and label
    let mut out = Vec::new();
    g.write_to(&mut out);
    assert_eq!(out, data);
    let from_info = GroupType::from_info(77, b"WXYZ");
    assert!(matches!(from_info, GroupType::Unknown { .. }));
    assert_eq!(from_info.get_name(), 77);
}

#[test]
fn duplicate_single_occurrence_field_rejected() {
    // the same single-occurrence tag twice: conversion names the tag, the
    // dispatcher falls back, and the fallback still round-trips
    let mut fields = field_bytes(b"EDID", b"One\0");
    fields.extend_from_slice(&field_bytes(b"EDID", b"Two\0"));
    let data = record_bytes(b"AACT", &fields);
    let (_, general) = GeneralRecord::parse(&data).unwrap();
    match AACTRecord::from_record(&general) {
        Err(FromRecordError::DuplicateField(tag)) => assert_eq!(&tag, b"EDID"),
        other => panic!("expected a duplicate-field error, got {:?}", other),
    }
    let tops = parse_file(&data).unwrap();
    assert!(matches!(&tops[0], Top::Record(Record::Unknown(_))));
    assert_eq!(write_all(&tops), data);
}

#[test]
fn malformed_field_body_falls_back_to_general() {
    // a colour field with the wrong width: conversion fails, the general
    // form is kept, and the bytes still round-trip
    let data = record_bytes(b"AACT", &field_bytes(b"CNAM", &[1, 2, 3]));
    let (_, general) = GeneralRecord::parse(&data).unwrap();
    assert!(AACTRecord::from_record(&general).is_err());
    let tops = parse_file(&data).unwrap();
    assert!(matches!(&tops[0], Top::Record(Record::Unknown(_))));
    assert_eq!(write_all(&tops), data);
}

#[test]
fn chained_collection_stops_exactly_at_unrelated_tag() {
    // zero, one, and many continuation fields: the fold consumes exactly
    // the run and leaves the cursor on the unrelated tag
    let mk = |n: usize| -> Vec<GeneralField> {
        let mut fs = Vec::new();
        for i in 0..n {
            fs.push(GeneralField::new(*b"YNAM", (i as u32).to_le_bytes().to_vec()));
        }
        fs.push(GeneralField::new(*b"ZNAM", 7u32.to_le_bytes().to_vec()));
        fs
    };
    for n in [0usize, 1, 5] {
        let fields = mk(n);
        let (_, head) = esm::parse::le_u32(&99u32.to_le_bytes()).unwrap();
        let first = esm::fields::item::YNAM { formid: FormId::new(head) };
        let mut pos = 0usize;
        let fl: FieldList<esm::fields::item::YNAM> =
            FieldList::collect(first, &fields, &mut pos).unwrap();
        assert_eq!(pos, n, "cursor must stop on the unrelated tag");
        assert_eq!(fl.list.len(), n + 1);
        assert_eq!(&fields[pos].tag_name, b"ZNAM");
    }
}

#[test]
fn truncated_input_fails_fast() {
    let data = record_bytes(b"AACT", &field_bytes(b"EDID", b"X\0"));
    assert!(parse_file(&data[..data.len() - 1]).is_err());
    assert!(parse_file(&data[..3]).is_err());
    // trailing garbage after the last whole chunk is an error, too
    let mut padded = data.clone();
    padded.push(0xFF);
    assert!(parse_file(&padded).is_err());
}

#[test]
fn test_grouptype() {
    let g = GroupType::Top(*b"GMST");
    assert_eq!(g.data_size(), 8);
    let mut data = Vec::new();
    g.write_to(&mut data);
    assert_eq!(data.len(), 8);
    assert_eq!(data[0], b'G');
    assert_eq!(data[1], b'M');
    assert_eq!(data[2], b'S');
    assert_eq!(data[3], b'T');
    assert_eq!(data[4], 0x00);
    assert_eq!(data[5], 0x00);
    assert_eq!(data[6], 0x00);
    assert_eq!(data[7], 0x00);
}

#[test]
fn null_terminated_round_trip() {
    // encoding then decoding a sentinel-free string restores it, and the
    // image is one byte longer with the sentinel last
    let s = esm::records::null_terminated_string::NullTerminatedString::new(b"abc".to_vec());
    let mut enc = Vec::new();
    s.write_to(&mut enc);
    assert_eq!(enc.len(), 4);
    assert_eq!(enc[3], 0);
    let (rest, back) =
        esm::records::null_terminated_string::NullTerminatedString::parse(&enc).unwrap();
    assert!(rest.is_empty());
    assert_eq!(back.value, b"abc".to_vec());
}

#[test]
fn concrete_group_of_known_type_converts_and_round_trips() {
    let mut body = record_bytes(b"AACT", &field_bytes(b"EDID", b"A\0"));
    body.extend_from_slice(&record_bytes(b"AACT", &field_bytes(b"EDID", b"B\0")));
    let data = group_bytes(b"AACT", 0, &body);
    let tops = parse_file(&data).unwrap();
    match &tops[0] {
        Top::Group(esm::Group::AACT(g)) => {
            assert_eq!(g.records.len(), 2);
            assert_eq!(g.data_size(), data.len());
        },
        other => panic!("expected a concrete action group, got {:?}", other),
    }
    assert_eq!(write_all(&tops), data);
}

#[test]
fn top_level_shape_is_chosen_by_the_sentinel() {
    let rec = record_bytes(b"BOOK", &[]);
    let grp = group_bytes(b"BOOK", 0, &[]);
    let (_, t) = parse_top_level(&rec).unwrap();
    assert!(matches!(t, GeneralTop::Record(_)));
    let (_, t) = parse_top_level(&grp).unwrap();
    assert!(matches!(t, GeneralTop::Group(_)));
}

#[test]
fn missing_mandatory_field_names_the_tag_and_falls_back() {
    // an animated-object record lacking its mandatory model chain:
    // conversion reports exactly the missing tag, and the dispatcher keeps
    // the general form, which still round-trips
    let data = record_bytes(b"ANIO", &field_bytes(b"EDID", b"Spin\0"));
    let (_, general) = GeneralRecord::parse(&data).unwrap();
    match esm::records::anio::ANIORecord::from_record(&general) {
        Err(FromRecordError::ExpectedField(tag)) => assert_eq!(&tag, b"MODL"),
        other => panic!("expected a missing-field error, got {:?}", other),
    }
    let tops = parse_file(&data).unwrap();
    assert!(matches!(&tops[0], Top::Record(Record::Unknown(_))));
    assert_eq!(write_all(&tops), data);
}

#[test]
fn complete_mandatory_fields_convert() {
    let mut fields = field_bytes(b"EDID", b"Spin\0");
    fields.extend_from_slice(&field_bytes(b"MODL", b"m.nif\0"));
    fields.extend_from_slice(&field_bytes(b"MODT", &[1, 2, 3, 4]));
    fields.extend_from_slice(&field_bytes(b"BNAM", b"Stop\0"));
    let data = record_bytes(b"ANIO", &fields);
    let tops = parse_file(&data).unwrap();
    match &tops[0] {
        Top::Record(Record::ANIO(rec)) => {
            assert_eq!(rec.editor_id_index, 0);
            assert_eq!(rec.model_collection_index, 1);
            assert_eq!(rec.unload_event_index, Some(2));
            assert_eq!(rec.fields.len(), 3);
        },
        other => panic!("expected a concrete animated-object record, got {:?}", other),
    }
    assert_eq!(write_all(&tops), data);
}

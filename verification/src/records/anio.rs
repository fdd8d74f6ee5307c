//! Animated-object records: an editor identifier, a mandatory model chain,
//! and an optional unload event, with the event field itself.
use crate::fields::edid::EDID;
use crate::fields::modl::{MODLCollection, MODL, MODT};
use crate::fields::{
    spec_field_image, write_field_header, FromField, FromFieldError, GeneralField,
};
use crate::parse::{spec_u16_le, spec_u32_le, ParseError};
use crate::records::common::{
    CommonRecordInfo, FromRecord, FromRecordError, GeneralRecord, StaticTypeNamed,
};
use crate::util::{spec_serialized_all, DataSize, StaticDataSize, Writable};
use vstd::prelude::*;

verus! {

/// Unload event name, zero-terminated.
#[derive(Debug, Clone)]
pub struct BNAM {
    /// Event name
    pub unload_event: crate::records::null_terminated_string::NullTerminatedString,
}

impl StaticTypeNamed for BNAM {
    open spec fn spec_static_tag_name() -> Seq<u8> {
        seq![0x42u8, 0x4eu8, 0x41u8, 0x4du8]
    }

    fn static_tag_name() -> (r: [u8; 4]) {
        let r = [0x42u8, 0x4eu8, 0x41u8, 0x4du8];
        proof {
            assert(r@ =~= Self::spec_static_tag_name());
        }
        r
    }
}

impl Writable for BNAM {
    open spec fn serialized(&self) -> Seq<u8> {
        spec_field_image(Self::spec_static_tag_name(), self.unload_event.serialized())
    }

    fn write_to(&self, w: &mut Vec<u8>) {
        let tag = Self::static_tag_name();
        let body_len = self.unload_event.data_size();
        if body_len <= 0xFFFF {
            write_field_header(&tag, body_len, w);
        } else {
            // unreachable for bodies that fit their 2-byte prefix; keep the
            // truncating image the length field has either way
            let len16 = #[verifier::truncate] (body_len as u16);
            write_field_header(&tag, (len16 as usize), w);
            proof {
                assert((len16 as usize) as u16 == (self.unload_event.serialized().len() as u16));
            }
        }
        self.unload_event.write_to(w);
        proof {
            assert(w@ =~= old(w)@ + self.serialized());
        }
    }
}

impl DataSize for BNAM {
    fn data_size(&self) -> (r: usize) {
        6 + self.unload_event.data_size()
    }
}

impl FromField for BNAM {
    /// The body must be one whole zero-terminated string: the final byte is
    /// the sentinel and no earlier byte is.
    open spec fn spec_accepts(field: &GeneralField) -> bool {
        &&& field.data@.len() >= 1
    &&& field.data@[field.data@.len() - 1] == 0
    &&& forall|j: int| 0 <= j < field.data@.len() - 1 ==> field.data@[j] != 0
    }

    /// The value is the body without its final sentinel.
    open spec fn spec_is_interp(field: &GeneralField, v: &BNAM) -> bool {
        v.unload_event.value@ == field.data@.take(field.data@.len() - 1)
    }

    /// A body with no sentinel ends too early; one with bytes after the
    /// first sentinel has trailing data.
    open spec fn spec_reject_err(field: &GeneralField) -> FromFieldError {
        if forall|j: int| 0 <= j < field.data@.len() ==> field.data@[j] != 0 {
            FromFieldError::ParseError(ParseError::UnexpectedEOF)
        } else {
            FromFieldError::ParseError(ParseError::ExpectedEOF)
        }
    }

    fn from_field(field: &GeneralField) -> (r: Result<Self, FromFieldError>) {
        let body: &[u8] = field.data.as_slice();
        let (rest, s) = match crate::records::null_terminated_string::NullTerminatedString::parse(
            body,
        ) {
            Ok(p) => p,
            Err(e) => {
                return Err(FromFieldError::ParseError(e));
            },
        };
        if rest.len() > 0 {
            return Err(FromFieldError::ParseError(ParseError::ExpectedEOF));
        }
        let v = BNAM { unload_event: s };
        proof {
            assert(field.data@.take(field.data@.len() as int) =~= field.data@);
            assert(v.serialized() =~= field.serialized());
        }
        Ok(v)
    }
}

/// Scans an animated-object record's fields in order, consuming the model
/// chain whole, and names the first fault: a repeated single-occurrence
/// tag, a body its field type rejects, or, after a clean walk, the first
/// mandatory tag that never occurred. Nothing at all means the record
/// converts.
pub open spec fn spec_anio_scan(
    fields: Seq<GeneralField>,
    i: int,
    seen_edid: bool,
    seen_modl: bool,
    seen_bnam: bool,
) -> Option<FromRecordError>
    decreases fields.len() - i,
{
    if i < 0 || i >= fields.len() {
        if !seen_edid {
            Option::Some(FromRecordError::ExpectedField([0x45u8, 0x44u8, 0x49u8, 0x44u8]))
        } else if !seen_modl {
            Option::Some(FromRecordError::ExpectedField([0x4du8, 0x4fu8, 0x44u8, 0x4cu8]))
        } else {
            Option::None
        }
    } else {
        let f = fields[i];
        if f.tag_name@ == EDID::spec_static_tag_name() {
            if seen_edid {
                Option::Some(FromRecordError::DuplicateField(f.tag_name))
            } else if !EDID::spec_accepts(&f) {
                Option::Some(FromRecordError::FromField(EDID::spec_reject_err(&f)))
            } else {
                spec_anio_scan(fields, i + 1, true, seen_modl, seen_bnam)
            }
        } else if f.tag_name@ == MODL::spec_static_tag_name() {
            if seen_modl {
                Option::Some(FromRecordError::DuplicateField(f.tag_name))
            } else if !MODL::spec_accepts(&f) {
                Option::Some(FromRecordError::FromField(MODL::spec_reject_err(&f)))
            } else if i + 1 < fields.len() && fields[i + 1].tag_name@
                == MODT::spec_static_tag_name() {
                spec_anio_scan(fields, i + 2, seen_edid, true, seen_bnam)
            } else {
                spec_anio_scan(fields, i + 1, seen_edid, true, seen_bnam)
            }
        } else if f.tag_name@ == BNAM::spec_static_tag_name() {
            if seen_bnam {
                Option::Some(FromRecordError::DuplicateField(f.tag_name))
            } else if !BNAM::spec_accepts(&f) {
                Option::Some(FromRecordError::FromField(BNAM::spec_reject_err(&f)))
            } else {
                spec_anio_scan(fields, i + 1, seen_edid, seen_modl, true)
            }
        } else {
            spec_anio_scan(fields, i + 1, seen_edid, seen_modl, seen_bnam)
        }
    }
}

/// One classified field of an animated-object record, in its wire position;
/// the model chain occupies one entry.
#[derive(Debug, Clone)]
pub enum ANIOField {
    EDID(EDID),
    MODLCollection(MODLCollection),
    BNAM(BNAM),
    Unknown(GeneralField),
}

impl Writable for ANIOField {
    open spec fn serialized(&self) -> Seq<u8> {
        match *self {
            ANIOField::EDID(f) => f.serialized(),
            ANIOField::MODLCollection(f) => f.serialized(),
            ANIOField::BNAM(f) => f.serialized(),
            ANIOField::Unknown(f) => f.serialized(),
        }
    }

    fn write_to(&self, w: &mut Vec<u8>) {
        match self {
            ANIOField::EDID(f) => f.write_to(w),
            ANIOField::MODLCollection(f) => f.write_to(w),
            ANIOField::BNAM(f) => f.write_to(w),
            ANIOField::Unknown(f) => f.write_to(w),
        }
    }
}

impl DataSize for ANIOField {
    fn data_size(&self) -> (r: usize) {
        match self {
            ANIOField::EDID(f) => f.data_size(),
            ANIOField::MODLCollection(f) => f.data_size(),
            ANIOField::BNAM(f) => f.data_size(),
            ANIOField::Unknown(f) => f.data_size(),
        }
    }
}

/// An animated-object record: its common info, named slots into the kept
/// field list, and that full list in wire order. The editor id and the
/// model chain are mandatory.
#[derive(Debug, Clone)]
pub struct ANIORecord {
    pub common: CommonRecordInfo,
    /// Tag EDID; mandatory
    pub editor_id_index: usize,
    /// Tags MODL and MODT; mandatory
    pub model_collection_index: usize,
    /// Tag BNAM
    pub unload_event_index: Option<usize>,
    pub fields: Vec<ANIOField>,
}

impl StaticTypeNamed for ANIORecord {
    open spec fn spec_static_tag_name() -> Seq<u8> {
        seq![0x41u8, 0x4eu8, 0x49u8, 0x4fu8]
    }

    fn static_tag_name() -> (r: [u8; 4]) {
        let r = [0x41u8, 0x4eu8, 0x49u8, 0x4fu8];
        proof {
            assert(r@ =~= Self::spec_static_tag_name());
        }
        r
    }
}

impl crate::records::common::TypeNamed for ANIORecord {
    /// A concrete record answers to its fixed tag.
    open spec fn spec_tag_name(&self) -> Seq<u8> {
        Self::spec_static_tag_name()
    }

    fn tag_name(&self) -> (r: [u8; 4]) {
        Self::static_tag_name()
    }
}

impl Writable for ANIORecord {
    /// The same record-chunk image the general form writes.
    open spec fn serialized(&self) -> Seq<u8> {
        Self::spec_static_tag_name() + spec_u32_le(
            spec_serialized_all(self.fields@).len() as u32,
        ) + self.common.serialized() + spec_serialized_all(self.fields@)
    }

    fn write_to(&self, w: &mut Vec<u8>) {
        let tag = Self::static_tag_name();
        w.push(tag[0]);
        w.push(tag[1]);
        w.push(tag[2]);
        w.push(tag[3]);
        proof {
            crate::util::lemma_serialized_all_prefix_len(self.fields@, 0);
        }
        let body_size = self.fields.data_size();
        let size32 = #[verifier::truncate] (body_size as u32);
        size32.write_to(w);
        self.common.write_to(w);
        self.fields.write_to(w);
        proof {
            assert(tag@ =~= seq![tag@[0], tag@[1], tag@[2], tag@[3]]);
            assert(w@ =~= old(w)@ + self.serialized());
        }
    }
}

impl DataSize for ANIORecord {
    fn data_size(&self) -> (r: usize) {
        proof {
            crate::util::lemma_serialized_all_prefix_len(self.fields@, 0);
        }
        24 + self.fields.data_size()
    }
}

impl FromRecord for ANIORecord {
    /// The scan finds no fault: every recognized field converts, no
    /// single-occurrence tag repeats, and both mandatory tags occur.
    open spec fn spec_accepts(record: &GeneralRecord) -> bool {
        spec_anio_scan(record.fields@, 0, false, false, false) is None
    }

    /// The common info carries over, and each mandatory slot points at an
    /// entry of its kind in the kept list.
    open spec fn spec_is_interp(record: &GeneralRecord, v: &ANIORecord) -> bool {
        &&& v.common == record.common
        &&& v.editor_id_index < v.fields@.len() && v.fields@[v.editor_id_index as int] is EDID
        &&& v.model_collection_index < v.fields@.len() && v.fields@[
            v.model_collection_index as int
        ] is MODLCollection
    }

    /// The fault the scan names: in particular, a record body lacking a
    /// mandatory tag is rejected with exactly `ExpectedField` naming it.
    open spec fn spec_reject_err(record: &GeneralRecord) -> FromRecordError {
        spec_anio_scan(record.fields@, 0, false, false, false)->Some_0
    }

    #[verifier::loop_isolation(false)]
    #[verifier::rlimit(100)]
    fn from_record(record: &GeneralRecord) -> (r: Result<Self, FromRecordError>) {
        let mut edid_index: Option<usize> = None;
        let mut modl_index: Option<usize> = None;
        let mut bnam_index: Option<usize> = None;
        let mut fields: Vec<ANIOField> = Vec::new();
        let n = record.fields.len();
        let mut i: usize = 0;
        while i < n
            invariant
                0 <= i <= n,
                spec_anio_scan(record.fields@, 0, false, false, false) == spec_anio_scan(
                    record.fields@,
                    i as int,
                    edid_index is Some,
                    modl_index is Some,
                    bnam_index is Some,
                ),
                spec_serialized_all(fields@) == spec_serialized_all(record.fields@.take(i as int)),
                edid_index matches Some(ix) ==> ix < fields@.len() && fields@[ix as int] is EDID,
                modl_index matches Some(ix) ==> ix < fields@.len() && fields@[
                    ix as int
                ] is MODLCollection,
            decreases n - i,
        {
            let field = &record.fields[i];
            proof {
                crate::util::lemma_serialized_all_snoc(record.fields@, i as int);
            }
            if crate::util::tag_eq(&field.tag_name, &EDID::static_tag_name()) {
                if edid_index.is_some() {
                    return Err(FromRecordError::DuplicateField(field.tag_name));
                }
                let v = match EDID::from_field(field) {
                    Ok(v) => v,
                    Err(e) => {
                        return Err(FromRecordError::FromField(e));
                    },
                };
                edid_index = Some(fields.len());
                proof {
                    crate::util::lemma_serialized_all_push(fields@, ANIOField::EDID(v));
                }
                fields.push(ANIOField::EDID(v));
                i += 1;
            } else if crate::util::tag_eq(&field.tag_name, &MODL::static_tag_name()) {
                if modl_index.is_some() {
                    return Err(FromRecordError::DuplicateField(field.tag_name));
                }
                let v = match MODL::from_field(field) {
                    Ok(v) => v,
                    Err(e) => {
                        return Err(FromRecordError::FromField(e));
                    },
                };
                let mut c = MODLCollection { model: v, texture_data: None };
                let mut step: usize = 1;
                if i + 1 < n {
                    let tfield = &record.fields[i + 1];
                    if crate::util::tag_eq(&tfield.tag_name, &MODT::static_tag_name()) {
                        let t = match MODT::from_field(tfield) {
                            Ok(t) => t,
                            Err(e) => {
                                return Err(FromRecordError::FromField(e));
                            },
                        };
                        c = MODLCollection { model: c.model, texture_data: Some(t) };
                        step = 2;
                        proof {
                            crate::util::lemma_serialized_all_snoc(record.fields@, i + 1);
                        }
                    }
                }
                modl_index = Some(fields.len());
                proof {
                    crate::util::lemma_serialized_all_push(fields@, ANIOField::MODLCollection(c));
                }
                fields.push(ANIOField::MODLCollection(c));
                i += step;
            } else if crate::util::tag_eq(&field.tag_name, &BNAM::static_tag_name()) {
                if bnam_index.is_some() {
                    return Err(FromRecordError::DuplicateField(field.tag_name));
                }
                let v = match BNAM::from_field(field) {
                    Ok(v) => v,
                    Err(e) => {
                        return Err(FromRecordError::FromField(e));
                    },
                };
                bnam_index = Some(fields.len());
                proof {
                    crate::util::lemma_serialized_all_push(fields@, ANIOField::BNAM(v));
                }
                fields.push(ANIOField::BNAM(v));
                i += 1;
            } else {
                let v = field.duplicate();
                proof {
                    crate::util::lemma_serialized_all_push(fields@, ANIOField::Unknown(v));
                }
                fields.push(ANIOField::Unknown(v));
                i += 1;
            }
        }
        let editor_id_index = match edid_index {
            Some(ix) => ix,
            None => {
                return Err(FromRecordError::ExpectedField([0x45u8, 0x44u8, 0x49u8, 0x44u8]));
            },
        };
        let model_collection_index = match modl_index {
            Some(ix) => ix,
            None => {
                return Err(FromRecordError::ExpectedField([0x4du8, 0x4fu8, 0x44u8, 0x4cu8]));
            },
        };
        let v = ANIORecord {
            common: record.common,
            editor_id_index,
            model_collection_index,
            unload_event_index: bnam_index,
            fields,
        };
        proof {
            assert(record.fields@.take(n as int) =~= record.fields@);
            assert(v.serialized() =~= record.serialized());
        }
        Ok(v)
    }
}

/// The scan's verdict depends only on the fields' views: two runs equal
/// tag for tag and body for body fault together or convert together.
pub proof fn lemma_anio_scan_respects_views(
    fa: Seq<GeneralField>,
    fb: Seq<GeneralField>,
    i: int,
    seen_edid: bool,
    seen_modl: bool,
    seen_bnam: bool,
)
    requires
        fa.len() == fb.len(),
        forall|k: int| 0 <= k < fa.len() ==> (#[trigger] fa[k]).eqv(&fb[k]),
    ensures
        (spec_anio_scan(fa, i, seen_edid, seen_modl, seen_bnam) is None) == (spec_anio_scan(
            fb,
            i,
            seen_edid,
            seen_modl,
            seen_bnam,
        ) is None),
    decreases fa.len() - i,
{
    if 0 <= i < fa.len() {
        assert(fa[i].eqv(&fb[i]));
        if fa[i].tag_name@ == EDID::spec_static_tag_name() {
            if !seen_edid && EDID::spec_accepts(&fa[i]) {
                lemma_anio_scan_respects_views(fa, fb, i + 1, true, seen_modl, seen_bnam);
            }
        } else if fa[i].tag_name@ == MODL::spec_static_tag_name() {
            if !seen_modl && MODL::spec_accepts(&fa[i]) {
                if i + 1 < fa.len() {
                    assert(fa[i + 1].eqv(&fb[i + 1]));
                }
                if i + 1 < fa.len() && fa[i + 1].tag_name@ == MODT::spec_static_tag_name() {
                    lemma_anio_scan_respects_views(fa, fb, i + 2, seen_edid, true, seen_bnam);
                } else {
                    lemma_anio_scan_respects_views(fa, fb, i + 1, seen_edid, true, seen_bnam);
                }
            }
        } else if fa[i].tag_name@ == BNAM::spec_static_tag_name() {
            if !seen_bnam && BNAM::spec_accepts(&fa[i]) {
                lemma_anio_scan_respects_views(fa, fb, i + 1, seen_edid, seen_modl, true);
            }
        } else {
            lemma_anio_scan_respects_views(fa, fb, i + 1, seen_edid, seen_modl, seen_bnam);
        }
    }
}

/// Conversion acceptance depends only on the record's views: records equal
/// view for view convert together.
pub proof fn lemma_anio_accepts_respects_views(a: GeneralRecord, b: GeneralRecord)
    requires
        a.eqv(&b),
    ensures
        ANIORecord::spec_accepts(&a) == ANIORecord::spec_accepts(&b),
{
    lemma_anio_scan_respects_views(a.fields@, b.fields@, 0, false, false, false);
}

} // verus!

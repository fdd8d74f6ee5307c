//! Action records: an editor identifier and an optional colour, the
//! simplest concrete record shape.
use crate::fields::edid::EDID;
use crate::fields::rgbu::RGBU;
use crate::fields::{
    spec_field_image, write_field_header, FromField, FromFieldError, GeneralField,
};
use crate::parse::{spec_u16_le, spec_u32_le, Parse, ParseError};
use crate::records::common::{
    CommonRecordInfo, FromRecord, FromRecordError, GeneralRecord, StaticTypeNamed,
};
use crate::util::{spec_serialized_all, DataSize, StaticDataSize, Writable};
use vstd::prelude::*;

verus! {

/// Action colour: a red-green-blue triple with an unused byte.
#[derive(Debug, Copy, Clone, PartialEq, Eq, Structural)]
pub struct CNAM {
    pub color: RGBU,
}

impl CNAM {
    /// This field's body bytes.
    pub open spec fn spec_body(&self) -> Seq<u8> {
        self.color.serialized()
    }
}

impl StaticTypeNamed for CNAM {
    open spec fn spec_static_tag_name() -> Seq<u8> {
        seq![0x43u8, 0x4eu8, 0x41u8, 0x4du8]
    }

    fn static_tag_name() -> (r: [u8; 4]) {
        let r = [0x43u8, 0x4eu8, 0x41u8, 0x4du8];
        proof {
            assert(r@ =~= Self::spec_static_tag_name());
        }
        r
    }
}

impl Writable for CNAM {
    open spec fn serialized(&self) -> Seq<u8> {
        spec_field_image(Self::spec_static_tag_name(), self.spec_body())
    }

    fn write_to(&self, w: &mut Vec<u8>) {
        let tag = Self::static_tag_name();
        write_field_header(&tag, 4, w);
        self.color.write_to(w);
        proof {
            assert(w@ =~= old(w)@ + self.serialized());
        }
    }
}

impl DataSize for CNAM {
    fn data_size(&self) -> (r: usize) {
        10
    }
}

impl FromField for CNAM {
    /// The body must be exactly the colour's 4 bytes.
    open spec fn spec_accepts(field: &GeneralField) -> bool {
        field.data@.len() == 4
    }

    /// The four body bytes are the colour components, in order.
    open spec fn spec_is_interp(field: &GeneralField, v: &CNAM) -> bool {
        &&& v.color.red == field.data@[0]
        &&& v.color.green == field.data@[1]
        &&& v.color.blue == field.data@[2]
        &&& v.color.unused == field.data@[3]
    }

    open spec fn spec_reject_err(field: &GeneralField) -> FromFieldError {
        FromFieldError::ParseError(
            ParseError::ExpectedExact { expected: 4 as usize, found: field.data@.len() as usize },
        )
    }

    fn from_field(field: &GeneralField) -> (r: Result<Self, FromFieldError>) {
        let n = field.data.len();
        if n != 4 {
            return Err(
                FromFieldError::ParseError(ParseError::ExpectedExact { expected: 4, found: n }),
            );
        }
        let body: &[u8] = field.data.as_slice();
        let (_, color) = match RGBU::parse(body) {
            Ok(p) => p,
            Err(e) => {
                return Err(FromFieldError::ParseError(e));
            },
        };
        let v = CNAM { color };
        proof {
            assert(v.spec_body() =~= field.data@);
            assert(v.serialized() =~= field.serialized());
        }
        Ok(v)
    }
}

/// One classified field of an action record, in its wire position.
#[derive(Debug, Clone)]
pub enum AACTField {
    EDID(EDID),
    CNAM(CNAM),
    Unknown(GeneralField),
}

impl Writable for AACTField {
    open spec fn serialized(&self) -> Seq<u8> {
        match *self {
            AACTField::EDID(f) => f.serialized(),
            AACTField::CNAM(f) => f.serialized(),
            AACTField::Unknown(f) => f.serialized(),
        }
    }

    fn write_to(&self, w: &mut Vec<u8>) {
        match self {
            AACTField::EDID(f) => f.write_to(w),
            AACTField::CNAM(f) => f.write_to(w),
            AACTField::Unknown(f) => f.write_to(w),
        }
    }
}

impl DataSize for AACTField {
    fn data_size(&self) -> (r: usize) {
        match self {
            AACTField::EDID(f) => f.data_size(),
            AACTField::CNAM(f) => f.data_size(),
            AACTField::Unknown(f) => f.data_size(),
        }
    }
}

/// Scans an action record's fields in order, tracking which
/// single-occurrence tags were already seen, and names the first fault:
/// a repeated single-occurrence tag or a body its field type rejects.
/// Nothing at all means the whole list converts.
pub open spec fn spec_aact_scan(
    fields: Seq<GeneralField>,
    i: int,
    seen_edid: bool,
    seen_cnam: bool,
) -> Option<FromRecordError>
    decreases fields.len() - i,
{
    if i < 0 || i >= fields.len() {
        Option::None
    } else {
        let f = fields[i];
        if f.tag_name@ == EDID::spec_static_tag_name() {
            if seen_edid {
                Option::Some(FromRecordError::DuplicateField(f.tag_name))
            } else if !EDID::spec_accepts(&f) {
                Option::Some(FromRecordError::FromField(EDID::spec_reject_err(&f)))
            } else {
                spec_aact_scan(fields, i + 1, true, seen_cnam)
            }
        } else if f.tag_name@ == CNAM::spec_static_tag_name() {
            if seen_cnam {
                Option::Some(FromRecordError::DuplicateField(f.tag_name))
            } else if !CNAM::spec_accepts(&f) {
                Option::Some(FromRecordError::FromField(CNAM::spec_reject_err(&f)))
            } else {
                spec_aact_scan(fields, i + 1, seen_edid, true)
            }
        } else {
            spec_aact_scan(fields, i + 1, seen_edid, seen_cnam)
        }
    }
}

/// An action record: its common info, named slots into the kept field
/// list, and that full list in wire order, unknown fields included.
#[derive(Debug, Clone)]
pub struct AACTRecord {
    pub common: CommonRecordInfo,
    /// Editor id slot; tag EDID
    pub action_name_index: Option<usize>,
    /// Colour slot; tag CNAM
    pub rgb_index: Option<usize>,
    pub fields: Vec<AACTField>,
}

impl StaticTypeNamed for AACTRecord {
    open spec fn spec_static_tag_name() -> Seq<u8> {
        seq![0x41u8, 0x41u8, 0x43u8, 0x54u8]
    }

    fn static_tag_name() -> (r: [u8; 4]) {
        let r = [0x41u8, 0x41u8, 0x43u8, 0x54u8];
        proof {
            assert(r@ =~= Self::spec_static_tag_name());
        }
        r
    }
}

impl crate::records::common::TypeNamed for AACTRecord {
    /// A concrete record answers to its fixed tag.
    open spec fn spec_tag_name(&self) -> Seq<u8> {
        Self::spec_static_tag_name()
    }

    fn tag_name(&self) -> (r: [u8; 4]) {
        Self::static_tag_name()
    }
}

impl Writable for AACTRecord {
    /// The same record-chunk image the general form writes.
    open spec fn serialized(&self) -> Seq<u8> {
        Self::spec_static_tag_name() + spec_u32_le(
            spec_serialized_all(self.fields@).len() as u32,
        ) + self.common.serialized() + spec_serialized_all(self.fields@)
    }

    fn write_to(&self, w: &mut Vec<u8>) {
        let tag = Self::static_tag_name();
        w.push(tag[0]);
        w.push(tag[1]);
        w.push(tag[2]);
        w.push(tag[3]);
        proof {
            crate::util::lemma_serialized_all_prefix_len(self.fields@, 0);
        }
        let body_size = self.fields.data_size();
        let size32 = #[verifier::truncate] (body_size as u32);
        size32.write_to(w);
        self.common.write_to(w);
        self.fields.write_to(w);
        proof {
            assert(tag@ =~= seq![tag@[0], tag@[1], tag@[2], tag@[3]]);
            assert(w@ =~= old(w)@ + self.serialized());
        }
    }
}

impl DataSize for AACTRecord {
    fn data_size(&self) -> (r: usize) {
        proof {
            crate::util::lemma_serialized_all_prefix_len(self.fields@, 0);
        }
        24 + self.fields.data_size()
    }
}

impl FromRecord for AACTRecord {
    /// Every field converts and no single-occurrence tag repeats.
    open spec fn spec_accepts(record: &GeneralRecord) -> bool {
        spec_aact_scan(record.fields@, 0, false, false) is None
    }

    /// The fields carry over classified but unmoved: position for position,
    /// a recognized tag becomes its typed reading and anything else stays
    /// verbatim; each named slot points at its tag's one occurrence, or is
    /// nothing when the tag never occurs.
    open spec fn spec_is_interp(record: &GeneralRecord, v: &AACTRecord) -> bool {
        &&& v.common == record.common
        &&& v.fields@.len() == record.fields@.len()
        &&& forall|i: int|
            0 <= i < record.fields@.len() ==> spec_aact_field_matches(
                record.fields@[i],
                #[trigger] v.fields@[i],
            )
        &&& (v.action_name_index matches Some(ix) ==> 0 <= ix < record.fields@.len()
            && record.fields@[ix as int].tag_name@ == EDID::spec_static_tag_name())
        &&& (v.action_name_index is None ==> forall|i: int|
            0 <= i < record.fields@.len() ==> (#[trigger] record.fields@[i]).tag_name@
                != EDID::spec_static_tag_name())
        &&& (v.rgb_index matches Some(ix) ==> 0 <= ix < record.fields@.len()
            && record.fields@[ix as int].tag_name@ == CNAM::spec_static_tag_name())
        &&& (v.rgb_index is None ==> forall|i: int|
            0 <= i < record.fields@.len() ==> (#[trigger] record.fields@[i]).tag_name@
                != CNAM::spec_static_tag_name())
    }

    /// The fault the scan names.
    open spec fn spec_reject_err(record: &GeneralRecord) -> FromRecordError {
        spec_aact_scan(record.fields@, 0, false, false)->Some_0
    }

    #[verifier::loop_isolation(false)]
    fn from_record(record: &GeneralRecord) -> (r: Result<Self, FromRecordError>) {
        let mut edid_index: Option<usize> = None;
        let mut cnam_index: Option<usize> = None;
        let mut fields: Vec<AACTField> = Vec::new();
        let edid_tag = EDID::static_tag_name();
        let cnam_tag = CNAM::static_tag_name();
        let n = record.fields.len();
        let mut i: usize = 0;
        while i < n
            invariant
                0 <= i <= n,
                fields@.len() == i,
                spec_aact_scan(record.fields@, 0, false, false) == spec_aact_scan(
                    record.fields@,
                    i as int,
                    edid_index is Some,
                    cnam_index is Some,
                ),
                spec_serialized_all(fields@) == spec_serialized_all(record.fields@.take(i as int)),
                forall|k: int|
                    0 <= k < i ==> spec_aact_field_matches(
                        record.fields@[k],
                        #[trigger] fields@[k],
                    ),
                edid_index matches Some(ix) ==> 0 <= ix < i && record.fields@[ix as int].tag_name@
                    == EDID::spec_static_tag_name(),
                edid_index is None ==> forall|k: int|
                    0 <= k < i ==> (#[trigger] record.fields@[k]).tag_name@
                        != EDID::spec_static_tag_name(),
                cnam_index matches Some(ix) ==> 0 <= ix < i && record.fields@[ix as int].tag_name@
                    == CNAM::spec_static_tag_name(),
                cnam_index is None ==> forall|k: int|
                    0 <= k < i ==> (#[trigger] record.fields@[k]).tag_name@
                        != CNAM::spec_static_tag_name(),
            decreases n - i,
        {
            let field = &record.fields[i];
            proof {
                crate::util::lemma_serialized_all_snoc(record.fields@, i as int);
            }
            if crate::util::tag_eq(&field.tag_name, &edid_tag) {
                if edid_index.is_some() {
                    return Err(FromRecordError::DuplicateField(field.tag_name));
                }
                let v = match EDID::from_field(field) {
                    Ok(v) => v,
                    Err(e) => {
                        return Err(FromRecordError::FromField(e));
                    },
                };
                edid_index = Some(fields.len());
                proof {
                    crate::util::lemma_serialized_all_push(fields@, AACTField::EDID(v));
                }
                fields.push(AACTField::EDID(v));
            } else if crate::util::tag_eq(&field.tag_name, &cnam_tag) {
                if cnam_index.is_some() {
                    return Err(FromRecordError::DuplicateField(field.tag_name));
                }
                let v = match CNAM::from_field(field) {
                    Ok(v) => v,
                    Err(e) => {
                        return Err(FromRecordError::FromField(e));
                    },
                };
                cnam_index = Some(fields.len());
                proof {
                    crate::util::lemma_serialized_all_push(fields@, AACTField::CNAM(v));
                }
                fields.push(AACTField::CNAM(v));
            } else {
                let v = field.duplicate();
                proof {
                    crate::util::lemma_serialized_all_push(fields@, AACTField::Unknown(v));
                }
                fields.push(AACTField::Unknown(v));
            }
            i += 1;
        }
        let v = AACTRecord {
            common: record.common,
            action_name_index: edid_index,
            rgb_index: cnam_index,
            fields,
        };
        proof {
            assert(record.fields@.take(n as int) =~= record.fields@);
            assert(v.serialized() =~= record.serialized());
        }
        Ok(v)
    }
}


/// The scan's verdict depends only on the fields' views: two runs equal
/// tag for tag and body for body fault together or convert together.
pub proof fn lemma_aact_scan_respects_views(
    fa: Seq<GeneralField>,
    fb: Seq<GeneralField>,
    i: int,
    seen_edid: bool,
    seen_cnam: bool,
)
    requires
        fa.len() == fb.len(),
        forall|k: int| 0 <= k < fa.len() ==> (#[trigger] fa[k]).eqv(&fb[k]),
    ensures
        (spec_aact_scan(fa, i, seen_edid, seen_cnam) is None) == (spec_aact_scan(
            fb,
            i,
            seen_edid,
            seen_cnam,
        ) is None),
    decreases fa.len() - i,
{
    if 0 <= i < fa.len() {
        assert(fa[i].eqv(&fb[i]));
        if fa[i].tag_name@ == EDID::spec_static_tag_name() {
            if !seen_edid && EDID::spec_accepts(&fa[i]) {
                lemma_aact_scan_respects_views(fa, fb, i + 1, true, seen_cnam);
            }
        } else if fa[i].tag_name@ == CNAM::spec_static_tag_name() {
            if !seen_cnam && CNAM::spec_accepts(&fa[i]) {
                lemma_aact_scan_respects_views(fa, fb, i + 1, seen_edid, true);
            }
        } else {
            lemma_aact_scan_respects_views(fa, fb, i + 1, seen_edid, seen_cnam);
        }
    }
}

/// Conversion acceptance depends only on the record's views: records equal
/// view for view convert together.
pub proof fn lemma_aact_accepts_respects_views(a: GeneralRecord, b: GeneralRecord)
    requires
        a.eqv(&b),
    ensures
        AACTRecord::spec_accepts(&a) == AACTRecord::spec_accepts(&b),
{
    lemma_aact_scan_respects_views(a.fields@, b.fields@, 0, false, false);
}

/// How one kept field relates to the opaque field it came from: recognized
/// tags become their typed reading, anything else stays verbatim, and the
/// byte image never changes.
pub open spec fn spec_aact_field_matches(orig: GeneralField, kept: AACTField) -> bool {
    &&& kept.serialized() == orig.serialized()
    &&& match kept {
        AACTField::EDID(f) => orig.tag_name@ == EDID::spec_static_tag_name()
            && EDID::spec_is_interp(&orig, &f),
        AACTField::CNAM(f) => orig.tag_name@ == CNAM::spec_static_tag_name()
            && CNAM::spec_is_interp(&orig, &f),
        AACTField::Unknown(f) => f.eqv(&orig) && orig.tag_name@ != EDID::spec_static_tag_name()
            && orig.tag_name@ != CNAM::spec_static_tag_name(),
    }
}

} // verus!

//! Generic record layer: the 4-byte-tag + 4-byte-length record shape with
//! its fixed metadata block, the decomposition of a record body into field
//! chunks, and the conversion contract for concrete record types.
use crate::fields::{FromFieldError, GeneralField};
use crate::parse::{
    le_u16, le_u32, spec_u16_of_le, spec_u32_le, spec_u32_of_le, take, Parse, ParseError,
};
use crate::records::version_control_info::VersionControlInfo;
use crate::util::{
    as_4_bytes, lemma_serialized_all_push, spec_serialized_all, DataSize, StaticDataSize, Writable,
};
use vstd::prelude::*;

verus! {

/// Record header size: tag, body length, and the common info block.
pub const RECORDH_SIZE: usize = 24;

/// The bit-flag set carried by every record.
#[derive(Debug, Copy, Clone, PartialEq, Eq, Structural)]
pub struct RecordFlags {
    pub flags: u32,
}

impl RecordFlags {
    /// Wraps a raw flag word.
    pub fn new(flags: u32) -> (r: RecordFlags)
        ensures
            r.flags == flags,
    {
        RecordFlags { flags }
    }

    /// Whether any bit of `flag` is set.
    pub fn is(&self, flag: u32) -> (r: bool)
        ensures
            r == ((self.flags & flag) != 0),
    {
        (self.flags & flag) != 0
    }
}

impl Writable for RecordFlags {
    open spec fn serialized(&self) -> Seq<u8> {
        spec_u32_le(self.flags)
    }

    fn write_to(&self, w: &mut Vec<u8>) {
        self.flags.write_to(w);
    }
}

impl StaticDataSize for RecordFlags {
    open spec fn spec_static_size() -> nat {
        4
    }

    proof fn lemma_static_size(&self) {
    }

    fn static_data_size() -> (r: usize) {
        4
    }
}

impl DataSize for RecordFlags {
    fn data_size(&self) -> (r: usize) {
        4
    }
}

/// The fixed metadata block every record carries: flags, form identifier,
/// version-control stamp, internal version, and one small integer whose
/// meaning is not settled upstream; 16 bytes on the wire.
#[derive(Debug, Copy, Clone, PartialEq, Eq, Structural)]
pub struct CommonRecordInfo {
    pub flags: RecordFlags,
    /// Record form identifier
    pub id: u32,
    pub version_control_info: VersionControlInfo,
    /// Internal version of record
    pub version: u16,
    /// Values range from 0-15 upstream; kept verbatim
    pub unknown: u16,
}

impl CommonRecordInfo {
    /// Builds the block from its five parts.
    pub fn new(
        flags: RecordFlags,
        id: u32,
        version_control_info: VersionControlInfo,
        version: u16,
        unknown: u16,
    ) -> (r: CommonRecordInfo)
        ensures
            r == (CommonRecordInfo { flags, id, version_control_info, version, unknown }),
    {
        CommonRecordInfo { flags, id, version_control_info, version, unknown }
    }

    /// A fixed sample block, for tests.
    pub fn test_default() -> (r: CommonRecordInfo)
        ensures
            r == (CommonRecordInfo {
                flags: RecordFlags { flags: 0x9942649a },
                id: 0x420,
                version_control_info: VersionControlInfo {
                    day: 9,
                    month: 7,
                    last_user_id: 42,
                    current_user_id: 0,
                },
                version: 4,
                unknown: 1,
            }),
    {
        CommonRecordInfo {
            flags: RecordFlags { flags: 0x9942649a },
            id: 0x420,
            version_control_info: VersionControlInfo {
                day: 9,
                month: 7,
                last_user_id: 42,
                current_user_id: 0,
            },
            version: 4,
            unknown: 1,
        }
    }
}

impl Writable for CommonRecordInfo {
    open spec fn serialized(&self) -> Seq<u8> {
        self.flags.serialized() + spec_u32_le(self.id) + self.version_control_info.serialized()
            + crate::parse::spec_u16_le(self.version) + crate::parse::spec_u16_le(self.unknown)
    }

    fn write_to(&self, w: &mut Vec<u8>) {
        self.flags.write_to(w);
        self.id.write_to(w);
        self.version_control_info.write_to(w);
        self.version.write_to(w);
        self.unknown.write_to(w);
        proof {
            assert(w@ =~= old(w)@ + self.serialized());
        }
    }
}

impl StaticDataSize for CommonRecordInfo {
    open spec fn spec_static_size() -> nat {
        16
    }

    proof fn lemma_static_size(&self) {
    }

    fn static_data_size() -> (r: usize) {
        16
    }
}

impl DataSize for CommonRecordInfo {
    fn data_size(&self) -> (r: usize) {
        proof {
            self.lemma_static_size();
        }
        16
    }
}

impl Parse for CommonRecordInfo {
    open spec fn spec_size() -> nat {
        16
    }

    open spec fn spec_valid(s: Seq<u8>) -> bool {
        true
    }

    open spec fn spec_decode(s: Seq<u8>) -> CommonRecordInfo {
        CommonRecordInfo {
            flags: RecordFlags { flags: spec_u32_of_le(s.subrange(0, 4)) },
            id: spec_u32_of_le(s.subrange(4, 8)),
            version_control_info: <VersionControlInfo as Parse>::spec_decode(s.subrange(8, 12)),
            version: spec_u16_of_le(s.subrange(12, 14)),
            unknown: spec_u16_of_le(s.subrange(14, 16)),
        }
    }

    proof fn lemma_encode_size(v: CommonRecordInfo) {
    }

    proof fn lemma_round_trip(v: CommonRecordInfo) {
        crate::parse::lemma_u32_le_round_trip(v.flags.flags);
        crate::parse::lemma_u32_le_round_trip(v.id);
        crate::parse::lemma_u16_le_round_trip(v.version);
        crate::parse::lemma_u16_le_round_trip(v.unknown);
        let s = v.serialized();
        assert(s.subrange(0, 4) =~= spec_u32_le(v.flags.flags));
        assert(s.subrange(4, 8) =~= spec_u32_le(v.id));
        assert(s.subrange(8, 12) =~= v.version_control_info.serialized());
        assert(s.subrange(12, 14) =~= crate::parse::spec_u16_le(v.version));
        assert(s.subrange(14, 16) =~= crate::parse::spec_u16_le(v.unknown));
    }

    proof fn lemma_bytes_round_trip(s: Seq<u8>) {
        crate::parse::lemma_u32_le_bytes_round_trip(s.subrange(0, 4));
        crate::parse::lemma_u32_le_bytes_round_trip(s.subrange(4, 8));
        crate::parse::lemma_u16_le_bytes_round_trip(s.subrange(12, 14));
        crate::parse::lemma_u16_le_bytes_round_trip(s.subrange(14, 16));
        assert(Self::spec_decode(s).version_control_info.serialized() =~= s.subrange(8, 12));
        assert(Self::spec_decode(s).serialized() =~= s);
    }

    fn parse(data: &[u8]) -> (r: Result<(&[u8], Self), ParseError>) {
        if data.len() < 16 {
            return Err(ParseError::UnexpectedEOF);
        }
        let (rest, flags) = match le_u32(data) {
            Ok(p) => p,
            Err(e) => {
                return Err(e);
            },
        };
        let (rest, id) = match le_u32(rest) {
            Ok(p) => p,
            Err(e) => {
                return Err(e);
            },
        };
        let (rest, version_control_info) = match VersionControlInfo::parse(rest) {
            Ok(p) => p,
            Err(e) => {
                return Err(e);
            },
        };
        let (rest, version) = match le_u16(rest) {
            Ok(p) => p,
            Err(e) => {
                return Err(e);
            },
        };
        let (rest, unknown) = match le_u16(rest) {
            Ok(p) => p,
            Err(e) => {
                return Err(e);
            },
        };
        let v = CommonRecordInfo {
            flags: RecordFlags { flags },
            id,
            version_control_info,
            version,
            unknown,
        };
        proof {
            let s = data@.take(16);
            assert(data@.take(4) =~= s.subrange(0, 4));
            assert(data@.skip(4).take(4) =~= s.subrange(4, 8));
            assert(data@.skip(8).take(4) =~= s.subrange(8, 12));
            assert(data@.skip(12).take(2) =~= s.subrange(12, 14));
            assert(data@.skip(14).take(2) =~= s.subrange(14, 16));
            assert(rest@ =~= data@.skip(16));
        }
        Ok((rest, v))
    }
}

/// Whether a record body is exactly a run of whole field chunks.
pub open spec fn spec_fields_parseable(body: Seq<u8>) -> bool
    decreases body.len(),
{
    if body.len() == 0 {
        true
    } else if body.len() >= 6 && body.len() >= 6 + spec_u16_of_le(body.subrange(4, 6)) as int {
        spec_fields_parseable(body.skip(6 + spec_u16_of_le(body.subrange(4, 6)) as int))
    } else {
        false
    }
}

/// A still-undecoded record: tag, common info, and its field chunks in the
/// order they were read.
#[derive(Debug, Clone)]
pub struct GeneralRecord {
    pub tag_name: [u8; 4],
    pub common: CommonRecordInfo,
    /// The field chunks, in wire order
    pub fields: Vec<GeneralField>,
}

impl GeneralRecord {
    /// Every field body fits its prefix and the whole field run fits the
    /// record's 4-byte length prefix.
    pub open spec fn wf(&self) -> bool {
        &&& forall|i: int| 0 <= i < self.fields@.len() ==> (#[trigger] self.fields@[i]).wf()
        &&& spec_serialized_all(self.fields@).len() <= 0xFFFF_FFFF
    }

    /// View equality: same tag, same common info, and pairwise equal fields.
    pub open spec fn eqv(&self, other: &GeneralRecord) -> bool {
        &&& self.tag_name@ == other.tag_name@
        &&& self.common == other.common
        &&& self.fields@.len() == other.fields@.len()
        &&& forall|i: int|
            0 <= i < self.fields@.len() ==> (#[trigger] self.fields@[i]).eqv(&other.fields@[i])
    }

    /// Reads one record chunk: tag, body length, common info, then a body of
    /// exactly that many bytes, split into field chunks. Succeeds if and
    /// only if the input holds the whole chunk and its body is a clean run
    /// of fields; the consumed bytes are exactly the record's byte image.
    #[verifier::loop_isolation(false)]
    pub fn parse(data: &[u8]) -> (r: Result<(&[u8], GeneralRecord), ParseError>)
        ensures
            r matches Ok((rem, rec)) ==> {
                let n = 24 + spec_u32_of_le(data@.subrange(4, 8)) as int;
                &&& rec.wf()
                &&& data@ == rec.serialized() + rem@
                &&& rec.serialized() == data@.take(n)
                &&& rec.tag_name@ == data@.subrange(0, 4)
                &&& rec.common == <CommonRecordInfo as Parse>::spec_decode(data@.subrange(8, 24))
                &&& spec_serialized_all(rec.fields@) == data@.subrange(24, n)
                &&& rem@ == data@.skip(n)
            },
            (r is Ok) <==> (data@.len() >= 24 && data@.len() >= 24 + spec_u32_of_le(
                data@.subrange(4, 8),
            ) as int && spec_fields_parseable(
                data@.subrange(24, 24 + spec_u32_of_le(data@.subrange(4, 8)) as int),
            )),
            r matches Err(e) ==> e is UnexpectedEOF,
    {
        let (rest, name) = match take(data, 4) {
            Ok(p) => p,
            Err(e) => {
                return Err(e);
            },
        };
        let tag_name = as_4_bytes(name);
        let (rest, size) = match le_u32(rest) {
            Ok(p) => p,
            Err(e) => {
                return Err(e);
            },
        };
        proof {
            assert(data@.skip(4).take(4) =~= data@.subrange(4, 8));
        }
        let (rest, common) = match CommonRecordInfo::parse(rest) {
            Ok(p) => p,
            Err(e) => {
                return Err(e);
            },
        };
        proof {
            assert(data@.skip(8).take(16) =~= data@.subrange(8, 24));
        }
        let (rest, body) = match take(rest, size as usize) {
            Ok(p) => p,
            Err(e) => {
                return Err(e);
            },
        };
        let ghost n = 24 + size as int;
        proof {
            assert(body@ =~= data@.subrange(24, n));
        }
        let mut fields: Vec<GeneralField> = Vec::new();
        let mut cur: &[u8] = body;
        while cur.len() > 0
            invariant
                spec_serialized_all(fields@) + cur@ == body@,
                forall|i: int| 0 <= i < fields@.len() ==> (#[trigger] fields@[i]).wf(),
                cur@.len() <= body@.len(),
                spec_fields_parseable(body@) == spec_fields_parseable(cur@),
            decreases cur@.len(),
        {
            match GeneralField::parse(cur) {
                Ok((next, f)) => {
                    proof {
                        lemma_serialized_all_push(fields@, f);
                        assert(spec_serialized_all(fields@.push(f)) + next@ =~= body@);
                    }
                    fields.push(f);
                    cur = next;
                },
                Err(e) => {
                    proof {
                        assert(!spec_fields_parseable(cur@));
                    }
                    return Err(e);
                },
            }
        }
        proof {
            assert(cur@ =~= Seq::<u8>::empty());
            assert(spec_serialized_all(fields@) + cur@ =~= spec_serialized_all(fields@));
            assert(spec_serialized_all(fields@) == body@);
        }
        let rec = GeneralRecord { tag_name, common, fields };
        proof {
            crate::parse::lemma_u32_le_bytes_round_trip(data@.subrange(4, 8));
            <CommonRecordInfo as Parse>::lemma_bytes_round_trip(data@.subrange(8, 24));
            assert(rec.common.serialized() == data@.subrange(8, 24));
            assert(spec_serialized_all(rec.fields@).len() as u32 == size);
            assert(rec.serialized() =~= data@.take(n));
            assert(rec.tag_name@ =~= data@.subrange(0, 4));
            assert(rest@ =~= data@.skip(n));
            assert(data@ =~= data@.take(n) + data@.skip(n));
        }
        Ok((rest, rec))
    }
}

impl Writable for GeneralRecord {
    /// Tag, body length, common info, then the field chunks in order.
    open spec fn serialized(&self) -> Seq<u8> {
        self.tag_name@ + spec_u32_le(spec_serialized_all(self.fields@).len() as u32)
            + self.common.serialized() + spec_serialized_all(self.fields@)
    }

    fn write_to(&self, w: &mut Vec<u8>) {
        let mut i: usize = 0;
        let ghost orig = w@;
        while i < 4
            invariant
                0 <= i <= 4,
                w@ == orig + self.tag_name@.take(i as int),
            decreases 4 - i,
        {
            w.push(self.tag_name[i]);
            proof {
                assert(self.tag_name@.take(i + 1) =~= self.tag_name@.take(i as int).push(
                    self.tag_name@[i as int],
                ));
            }
            i += 1;
        }
        proof {
            assert(self.tag_name@.take(4) =~= self.tag_name@);
            crate::util::lemma_serialized_all_prefix_len(self.fields@, 0);
        }
        let body_size = self.fields.data_size();
        let size32 = #[verifier::truncate] (body_size as u32);
        size32.write_to(w);
        self.common.write_to(w);
        self.fields.write_to(w);
        proof {
            assert(w@ =~= orig + self.serialized());
        }
    }
}

impl DataSize for GeneralRecord {
    fn data_size(&self) -> (r: usize) {
        proof {
            crate::util::lemma_serialized_all_prefix_len(self.fields@, 0);
        }
        RECORDH_SIZE + self.fields.data_size()
    }
}

/// Two well-formed runs of fields with the same byte image are the same
/// fields: the image of a field run determines its decomposition.
pub proof fn lemma_fields_serialized_injective(a: Seq<GeneralField>, b: Seq<GeneralField>)
    requires
        forall|i: int| 0 <= i < a.len() ==> (#[trigger] a[i]).wf(),
        forall|i: int| 0 <= i < b.len() ==> (#[trigger] b[i]).wf(),
        spec_serialized_all(a) == spec_serialized_all(b),
    ensures
        a.len() == b.len(),
        forall|i: int| 0 <= i < a.len() ==> (#[trigger] a[i]).eqv(&b[i]),
    decreases a.len(),
{
    let sa = spec_serialized_all(a);
    let sb = spec_serialized_all(b);
    if a.len() == 0 {
        if b.len() > 0 {
            assert(sb.len() >= b[0].serialized().len());
            assert(b[0].serialized().len() >= 6);
        }
    } else if b.len() == 0 {
        assert(sa.len() >= a[0].serialized().len());
        assert(a[0].serialized().len() >= 6);
    } else {
        let a0 = a[0];
        let b0 = b[0];
        let la = a0.serialized().len() as int;
        let lb = b0.serialized().len() as int;
        crate::parse::lemma_u16_le_round_trip(a0.data@.len() as u16);
        crate::parse::lemma_u16_le_round_trip(b0.data@.len() as u16);
        assert(sa.subrange(4, 6) =~= crate::parse::spec_u16_le(a0.data@.len() as u16));
        assert(sb.subrange(4, 6) =~= crate::parse::spec_u16_le(b0.data@.len() as u16));
        assert(a0.data@.len() == b0.data@.len());
        assert(la == lb);
        assert(a0.serialized() =~= sa.subrange(0, la));
        assert(b0.serialized() =~= sb.subrange(0, lb));
        crate::fields::lemma_field_serialized_injective(a0, b0);
        assert(spec_serialized_all(a.skip(1)) =~= sa.subrange(la, sa.len() as int));
        assert(spec_serialized_all(b.skip(1)) =~= sb.subrange(lb, sb.len() as int));
        lemma_fields_serialized_injective(a.skip(1), b.skip(1));
        assert forall|i: int| 0 <= i < a.len() implies (#[trigger] a[i]).eqv(&b[i]) by {
            if i > 0 {
                assert(a.skip(1)[i - 1].eqv(&b.skip(1)[i - 1]));
            }
        }
    }
}

/// Two well-formed records with the same byte image have the same tag,
/// common info, and fields: a record's image determines it.
pub proof fn lemma_record_serialized_injective(a: GeneralRecord, b: GeneralRecord)
    requires
        a.wf(),
        b.wf(),
        a.serialized() == b.serialized(),
    ensures
        a.eqv(&b),
{
    let sa = a.serialized();
    let la = spec_serialized_all(a.fields@).len() as int;
    let lb = spec_serialized_all(b.fields@).len() as int;
    crate::parse::lemma_u32_le_round_trip(la as u32);
    crate::parse::lemma_u32_le_round_trip(lb as u32);
    assert(sa.subrange(4, 8) =~= spec_u32_le(spec_serialized_all(a.fields@).len() as u32));
    assert(b.serialized().subrange(4, 8) =~= spec_u32_le(
        spec_serialized_all(b.fields@).len() as u32,
    ));
    assert(la == lb);
    assert(a.tag_name@ =~= sa.subrange(0, 4));
    assert(b.tag_name@ =~= sa.subrange(0, 4));
    <CommonRecordInfo as Parse>::lemma_round_trip(a.common);
    <CommonRecordInfo as Parse>::lemma_round_trip(b.common);
    assert(a.common.serialized() =~= sa.subrange(8, 24));
    assert(b.common.serialized() =~= sa.subrange(8, 24));
    assert(a.common == <CommonRecordInfo as Parse>::spec_decode(a.common.serialized()));
    assert(spec_serialized_all(a.fields@) =~= sa.subrange(24, 24 + la));
    assert(spec_serialized_all(b.fields@) =~= sa.subrange(24, 24 + lb));
    lemma_fields_serialized_injective(a.fields@, b.fields@);
}

/// The error of turning an integer into a closed enumeration whose value
/// space does not cover it.
#[derive(Debug, Copy, Clone)]
pub enum ConversionError<T> {
    InvalidEnumerationValue(T),
}

/// The errors concrete-record conversion can produce.
#[derive(Debug, Clone)]
pub enum FromRecordError {
    /// An unexpected end of fields
    UnexpectedEnd,
    /// A mandatory field with this tag never occurred
    ExpectedField([u8; 4]),
    /// Expected a field with one tag but found another
    ExpectedFieldGot { expected: [u8; 4], found: [u8; 4] },
    /// A field occurred that was not expected at all
    UnexpectedField([u8; 4]),
    /// A single-occurrence tag occurred twice
    DuplicateField([u8; 4]),
    FromField(FromFieldError),
    ParseError(ParseError),
}

/// A concrete record that a `GeneralRecord` of the right shape converts
/// into; the conversion classifies fields but never reorders or changes
/// them, so the byte image is preserved.
pub trait FromRecord: Sized + Writable + StaticTypeNamed {
    /// Whether this record converts to the concrete type.
    spec fn spec_accepts(record: &GeneralRecord) -> bool;

    /// Whether `v` is the concrete reading of `record`, stated over views.
    spec fn spec_is_interp(record: &GeneralRecord, v: &Self) -> bool;

    /// The error a rejected record produces.
    spec fn spec_reject_err(record: &GeneralRecord) -> FromRecordError;

    /// Converts an opaque record, leaving it untouched so a caller can keep
    /// it when conversion fails. An accepted record yields exactly its
    /// concrete reading, whose byte image is the record's own; a rejected
    /// record yields exactly the named error.
    fn from_record(record: &GeneralRecord) -> (r: Result<Self, FromRecordError>)
        requires
            record.wf(),
            record.tag_name@ == Self::spec_static_tag_name(),
        ensures
            Self::spec_accepts(record) ==> (r matches Ok(v) && Self::spec_is_interp(record, &v)),
            !Self::spec_accepts(record) ==> (r matches Err(e) && e == Self::spec_reject_err(
                record,
            )),
            r matches Ok(v) ==> v.serialized() == record.serialized(),
    ;
}


/// The image of a run of well-formed fields is a clean run of field
/// chunks: what writing produces, parsing accepts.
pub proof fn lemma_wf_fields_image_parseable(fields: Seq<GeneralField>)
    requires
        forall|i: int| 0 <= i < fields.len() ==> (#[trigger] fields[i]).wf(),
    ensures
        spec_fields_parseable(spec_serialized_all(fields)),
    decreases fields.len(),
{
    let img = spec_serialized_all(fields);
    if fields.len() == 0 {
        assert(img =~= Seq::<u8>::empty());
    } else {
        let f0 = fields[0];
        let n = 6 + f0.data@.len() as int;
        crate::parse::lemma_u16_le_round_trip(f0.data@.len() as u16);
        assert(f0.serialized().len() == n);
        assert(img.subrange(4, 6) =~= crate::parse::spec_u16_le(f0.data@.len() as u16));
        assert(spec_u16_of_le(img.subrange(4, 6)) == f0.data@.len());
        lemma_wf_fields_image_parseable(fields.skip(1));
        assert(img.skip(n) =~= spec_serialized_all(fields.skip(1)));
    }
}

/// The image of a run of well-formed records is a clean run of record
/// chunks: what writing produces, parsing accepts.
pub proof fn lemma_wf_records_image_parseable(recs: Seq<GeneralRecord>)
    requires
        forall|i: int| 0 <= i < recs.len() ==> (#[trigger] recs[i]).wf(),
    ensures
        spec_records_parseable(spec_serialized_all(recs)),
    decreases recs.len(),
{
    let img = spec_serialized_all(recs);
    if recs.len() == 0 {
        assert(img =~= Seq::<u8>::empty());
    } else {
        let r0 = recs[0];
        let body = spec_serialized_all(r0.fields@);
        let n = 24 + body.len() as int;
        crate::parse::lemma_u32_le_round_trip(body.len() as u32);
        assert(r0.serialized().len() == n);
        assert(img.subrange(4, 8) =~= spec_u32_le(body.len() as u32));
        assert(spec_u32_of_le(img.subrange(4, 8)) == body.len());
        assert(img.subrange(24, n) =~= body);
        lemma_wf_fields_image_parseable(r0.fields@);
        lemma_wf_records_image_parseable(recs.skip(1));
        assert(img.skip(n) =~= spec_serialized_all(recs.skip(1)));
    }
}

/// Two well-formed runs of records with the same byte image are the same
/// records: the image of a record run determines its decomposition.
pub proof fn lemma_record_run_serialized_injective(a: Seq<GeneralRecord>, b: Seq<GeneralRecord>)
    requires
        forall|i: int| 0 <= i < a.len() ==> (#[trigger] a[i]).wf(),
        forall|i: int| 0 <= i < b.len() ==> (#[trigger] b[i]).wf(),
        spec_serialized_all(a) == spec_serialized_all(b),
    ensures
        a.len() == b.len(),
        forall|i: int| 0 <= i < a.len() ==> (#[trigger] a[i]).eqv(&b[i]),
    decreases a.len(),
{
    let sa = spec_serialized_all(a);
    let sb = spec_serialized_all(b);
    if a.len() == 0 {
        if b.len() > 0 {
            assert(sb.len() >= b[0].serialized().len());
        }
    } else if b.len() == 0 {
        assert(sa.len() >= a[0].serialized().len());
    } else {
        let a0 = a[0];
        let b0 = b[0];
        let la = a0.serialized().len() as int;
        let lb = b0.serialized().len() as int;
        crate::parse::lemma_u32_le_round_trip(spec_serialized_all(a0.fields@).len() as u32);
        crate::parse::lemma_u32_le_round_trip(spec_serialized_all(b0.fields@).len() as u32);
        assert(sa.subrange(4, 8) =~= spec_u32_le(spec_serialized_all(a0.fields@).len() as u32));
        assert(sb.subrange(4, 8) =~= spec_u32_le(spec_serialized_all(b0.fields@).len() as u32));
        assert(spec_serialized_all(a0.fields@).len() == spec_serialized_all(b0.fields@).len());
        assert(la == lb);
        assert(a0.serialized() =~= sa.subrange(0, la));
        assert(b0.serialized() =~= sb.subrange(0, lb));
        lemma_record_serialized_injective(a0, b0);
        assert(spec_serialized_all(a.skip(1)) =~= sa.subrange(la, sa.len() as int));
        assert(spec_serialized_all(b.skip(1)) =~= sb.subrange(lb, sb.len() as int));
        lemma_record_run_serialized_injective(a.skip(1), b.skip(1));
        assert forall|i: int| 0 <= i < a.len() implies (#[trigger] a[i]).eqv(&b[i]) by {
            if i > 0 {
                assert(a.skip(1)[i - 1].eqv(&b.skip(1)[i - 1]));
            }
        }
    }
}


/// Runs of fields equal view for view have the same byte image.
pub proof fn lemma_field_run_eqv_serialized(a: Seq<GeneralField>, b: Seq<GeneralField>)
    requires
        a.len() == b.len(),
        forall|i: int| 0 <= i < a.len() ==> (#[trigger] a[i]).eqv(&b[i]),
    ensures
        spec_serialized_all(a) == spec_serialized_all(b),
    decreases a.len(),
{
    if a.len() > 0 {
        assert(a[0].eqv(&b[0]));
        lemma_field_run_eqv_serialized(a.skip(1), b.skip(1));
    }
}

/// A type whose values all carry one fixed 4-byte tag.
pub trait StaticTypeNamed {
    /// The tag's bytes.
    spec fn spec_static_tag_name() -> Seq<u8>;

    /// Returns exactly the tag.
    fn static_tag_name() -> (r: [u8; 4])
        ensures
            r@ == Self::spec_static_tag_name(),
    ;
}

/// A value that knows its own 4-byte tag.
pub trait TypeNamed {
    /// The tag's bytes.
    spec fn spec_tag_name(&self) -> Seq<u8>;

    /// Returns exactly the tag.
    fn tag_name(&self) -> (r: [u8; 4])
        ensures
            r@ == self.spec_tag_name(),
    ;
}

impl TypeNamed for GeneralField {
    /// An opaque field answers to the tag it carries.
    open spec fn spec_tag_name(&self) -> Seq<u8> {
        self.tag_name@
    }

    fn tag_name(&self) -> (r: [u8; 4]) {
        self.tag_name
    }
}

impl TypeNamed for GeneralRecord {
    /// An opaque record answers to the tag it carries.
    open spec fn spec_tag_name(&self) -> Seq<u8> {
        self.tag_name@
    }

    fn tag_name(&self) -> (r: [u8; 4]) {
        self.tag_name
    }
}

/// Whether a run of bytes is exactly a run of whole record chunks.
pub open spec fn spec_records_parseable(body: Seq<u8>) -> bool
    decreases body.len(),
{
    if body.len() == 0 {
        true
    } else if body.len() >= 24 && body.len() >= 24 + spec_u32_of_le(body.subrange(4, 8)) as int
        && spec_fields_parseable(
        body.subrange(24, 24 + spec_u32_of_le(body.subrange(4, 8)) as int),
    ) {
        spec_records_parseable(body.skip(24 + spec_u32_of_le(body.subrange(4, 8)) as int))
    } else {
        false
    }
}

/// Splits a buffer into the run of record chunks that exactly fills it.
/// Succeeds if and only if the buffer is such a run; the records' byte
/// images concatenate back to the buffer.
#[verifier::loop_isolation(false)]
pub fn parse_records(data: &[u8]) -> (r: Result<Vec<GeneralRecord>, ParseError>)
    ensures
        r matches Ok(v) ==> {
            &&& spec_serialized_all(v@) == data@
            &&& forall|i: int| 0 <= i < v@.len() ==> (#[trigger] v@[i]).wf()
        },
        (r is Ok) <==> spec_records_parseable(data@),
        r matches Err(e) ==> e is UnexpectedEOF,
{
    let mut records: Vec<GeneralRecord> = Vec::new();
    let mut cur: &[u8] = data;
    while cur.len() > 0
        invariant
            spec_serialized_all(records@) + cur@ == data@,
            forall|i: int| 0 <= i < records@.len() ==> (#[trigger] records@[i]).wf(),
            cur@.len() <= data@.len(),
            spec_records_parseable(data@) == spec_records_parseable(cur@),
        decreases cur@.len(),
    {
        match GeneralRecord::parse(cur) {
            Ok((next, rec)) => {
                proof {
                    lemma_serialized_all_push(records@, rec);
                    assert(spec_serialized_all(records@.push(rec)) + next@ =~= data@);
                }
                records.push(rec);
                cur = next;
            },
            Err(e) => {
                proof {
                    assert(!spec_records_parseable(cur@));
                }
                return Err(e);
            },
        }
    }
    proof {
        assert(cur@ =~= Seq::<u8>::empty());
        assert(spec_serialized_all(records@) + cur@ =~= spec_serialized_all(records@));
    }
    Ok(records)
}

/// If the next field has the expected tag, converts and consumes it;
/// otherwise leaves the cursor where it was and returns nothing. A field
/// with the right tag but a body its type rejects is consumed and its
/// rejection reported.
pub fn get_field<F: crate::fields::FromField>(
    fields: &Vec<GeneralField>,
    pos: &mut usize,
    expected: &[u8; 4],
) -> (r: Result<Option<F>, FromFieldError>)
    requires
        *old(pos) <= fields@.len(),
        expected@ == F::spec_static_tag_name(),
    ensures
        ({
            let p = *old(pos) as int;
            if p < fields@.len() && fields@[p].tag_name@ == expected@ {
                &&& *final(pos) == p + 1
                &&& (F::spec_accepts(&fields@[p]) ==> (r matches Ok(q) && q matches Some(v)
                    && F::spec_is_interp(&fields@[p], &v) && v.serialized()
                    == fields@[p].serialized()))
                &&& (!F::spec_accepts(&fields@[p]) ==> (r matches Err(e) && e
                    == F::spec_reject_err(&fields@[p])))
            } else {
                *final(pos) == p && (r matches Ok(q) && q is None)
            }
        }),
{
    if *pos < fields.len() {
        let field = &fields[*pos];
        if crate::util::tag_eq(&field.tag_name, expected) {
            *pos = *pos + 1;
            return match F::from_field(field) {
                Ok(v) => Ok(Some(v)),
                Err(e) => Err(e),
            };
        }
    }
    Ok(None)
}

/// One or more adjacent fields of a single tag, kept in wire order.
#[derive(Debug, Clone)]
pub struct FieldList<T> {
    pub list: Vec<T>,
}

impl<T: crate::fields::FromField + StaticTypeNamed> FieldList<T> {
    /// Folds the run of fields that continue `first`'s tag into one list:
    /// every immediately following field with the same tag is converted and
    /// consumed, and the cursor stops exactly on the first field with any
    /// other tag. The list's byte image is the run's own. A continuation
    /// field its type rejects stops the fold with that field's error.
    pub fn collect(first: T, fields: &Vec<GeneralField>, pos: &mut usize) -> (r: Result<
        FieldList<T>,
        FromFieldError,
    >)
        requires
            *old(pos) <= fields@.len(),
        ensures
            *old(pos) <= *final(pos) <= fields@.len(),
            forall|k: int|
                *old(pos) <= k < *final(pos) ==> (#[trigger] fields@[k]).tag_name@
                    == T::spec_static_tag_name(),
            r matches Ok(fl) ==> {
                &&& (*final(pos) == fields@.len() || fields@[*final(pos) as int].tag_name@
                    != T::spec_static_tag_name())
                &&& fl.list@.len() == 1 + *final(pos) - *old(pos)
                &&& fl.list@[0] == first
                &&& forall|j: int|
                    1 <= j < fl.list@.len() ==> F_is_interp::<T>(
                        fields@[*old(pos) + j - 1],
                        fl.list@[j],
                    )
                &&& fl.serialized() == first.serialized() + spec_serialized_all(
                    fields@.subrange(*old(pos) as int, *final(pos) as int),
                )
            },
            r matches Err(e) ==> {
                &&& *final(pos) <= fields@.len()
                &&& !F_accepts::<T>(fields@[*final(pos) - 1])
                &&& e == F_reject_err::<T>(fields@[*final(pos) - 1])
            },
            (r is Err) <==> (exists|k: int|
                *old(pos) <= k < *final(pos) && !F_accepts::<T>(#[trigger] fields@[k])),
    {
        let ghost p0 = *pos as int;
        let mut list: Vec<T> = Vec::new();
        list.push(first);
        let expected = T::static_tag_name();
        proof {
            assert(list@.skip(1) =~= Seq::<T>::empty());
            assert(spec_serialized_all(list@.skip(1)) == Seq::<u8>::empty());
            assert(fields@.subrange(p0, p0) =~= Seq::<GeneralField>::empty());
            assert(spec_serialized_all(fields@.subrange(p0, p0)) == Seq::<u8>::empty());
            assert(spec_serialized_all(list@) =~= first.serialized() + spec_serialized_all(
                fields@.subrange(p0, p0),
            ));
        }
        loop
            invariant
                p0 == *old(pos),
                p0 <= *pos <= fields@.len(),
                list@.len() == 1 + *pos - p0,
                list@[0] == first,
                expected@ == T::spec_static_tag_name(),
                forall|k: int|
                    p0 <= k < *pos ==> (#[trigger] fields@[k]).tag_name@
                        == T::spec_static_tag_name(),
                forall|k: int| p0 <= k < *pos ==> F_accepts::<T>(#[trigger] fields@[k]),
                forall|j: int|
                    1 <= j < list@.len() ==> F_is_interp::<T>(fields@[p0 + j - 1], list@[j]),
                spec_serialized_all(list@) == first.serialized() + spec_serialized_all(
                    fields@.subrange(p0, *pos as int),
                ),
            ensures
                p0 <= *pos <= fields@.len(),
                list@.len() == 1 + *pos - p0,
                list@[0] == first,
                *pos == fields@.len() || fields@[*pos as int].tag_name@
                    != T::spec_static_tag_name(),
                forall|k: int|
                    p0 <= k < *pos ==> (#[trigger] fields@[k]).tag_name@
                        == T::spec_static_tag_name(),
                forall|k: int| p0 <= k < *pos ==> F_accepts::<T>(#[trigger] fields@[k]),
                forall|j: int|
                    1 <= j < list@.len() ==> F_is_interp::<T>(fields@[p0 + j - 1], list@[j]),
                spec_serialized_all(list@) == first.serialized() + spec_serialized_all(
                    fields@.subrange(p0, *pos as int),
                ),
            decreases fields@.len() - *pos,
        {
            if *pos >= fields.len() {
                break ;
            }
            let field = &fields[*pos];
            if !crate::util::tag_eq(&field.tag_name, &expected) {
                break ;
            }
            let ghost pk = *pos as int;
            *pos = *pos + 1;
            match T::from_field(field) {
                Ok(v) => {
                    proof {
                        lemma_serialized_all_push(list@, v);
                        crate::util::lemma_serialized_all_push(
                            fields@.subrange(p0, pk),
                            fields@[pk],
                        );
                        let sub1 = fields@.subrange(p0, pk);
                        let sub2 = fields@.subrange(p0, pk + 1);
                        assert(sub2.len() == sub1.len() + 1);
                        assert forall|i: int| 0 <= i < sub2.len() implies sub2[i] == sub1.push(
                            fields@[pk],
                        )[i] by {
                            assert(sub2[i] == fields@[p0 + i]);
                        }
                        assert(sub1.push(fields@[pk]) =~= sub2);
                    }
                    list.push(v);
                },
                Err(e) => {
                    return Err(e);
                },
            }
        }
        Ok(FieldList { list })
    }
}

/// The position where a run of same-tag fields ends: the first position at
/// or after `start` whose field carries a different tag, or the end.
pub fn find_chain_end(fields: &Vec<GeneralField>, start: usize, tag: &[u8; 4]) -> (r: usize)
    requires
        start <= fields@.len(),
    ensures
        start <= r <= fields@.len(),
        forall|k: int| start <= k < r ==> (#[trigger] fields@[k]).tag_name@ == tag@,
        r == fields@.len() || fields@[r as int].tag_name@ != tag@,
{
    let mut j = start;
    while j < fields.len()
        invariant
            start <= j <= fields@.len(),
            forall|k: int| start <= k < j ==> (#[trigger] fields@[k]).tag_name@ == tag@,
        decreases fields@.len() - j,
    {
        if !crate::util::tag_eq(&fields[j].tag_name, tag) {
            return j;
        }
        j += 1;
    }
    j
}

/// Whether `T` accepts a field; a readable alias for use in quantifiers.
pub open spec fn F_accepts<T: crate::fields::FromField>(field: GeneralField) -> bool {
    T::spec_accepts(&field)
}

/// Whether `v` is `T`'s reading of a field; alias for use in quantifiers.
pub open spec fn F_is_interp<T: crate::fields::FromField>(field: GeneralField, v: T) -> bool {
    T::spec_is_interp(&field, &v) && v.serialized() == field.serialized()
}

/// The error `T` gives a rejected field; alias for use in quantifiers.
pub open spec fn F_reject_err<T: crate::fields::FromField>(field: GeneralField) -> FromFieldError {
    T::spec_reject_err(&field)
}

impl<T: Writable> Writable for FieldList<T> {
    /// The images of the entries, in order.
    open spec fn serialized(&self) -> Seq<u8> {
        spec_serialized_all(self.list@)
    }

    fn write_to(&self, w: &mut Vec<u8>) {
        self.list.write_to(w);
    }
}

impl<T: DataSize> DataSize for FieldList<T> {
    fn data_size(&self) -> (r: usize) {
        self.list.data_size()
    }
}

} // verus!

//! The top-level group of action records.
use crate::groups::common::{
    spec_body_converts, spec_grup_tag, spec_run_converts, CommonGroupInfo, FromTopGroup,
    FromTopGroupError, TopGroup,
};
use crate::parse::{spec_i32_le, spec_u32_le};
use crate::records::aact::AACTRecord;
use crate::records::common::{
    parse_records, spec_records_parseable, FromRecord, StaticTypeNamed,
};
use crate::util::{spec_serialized_all, DataSize, Writable};
use vstd::prelude::*;

verus! {

/// A group holding only action records, each fully converted; the group's
/// byte image is recomputed from the records and the 24-byte header.
#[derive(Debug, Clone)]
pub struct AACTGroup {
    pub common: CommonGroupInfo,
    pub records: Vec<AACTRecord>,
}

impl Writable for AACTGroup {
    /// Sentinel, total length counting this header, the record-type label,
    /// the top-level discriminant, metadata, then the records.
    open spec fn serialized(&self) -> Seq<u8> {
        spec_grup_tag() + spec_u32_le(
            (24 + spec_serialized_all(self.records@).len()) as u32,
        ) + AACTRecord::spec_static_tag_name() + spec_i32_le(0) + self.common.serialized()
            + spec_serialized_all(self.records@)
    }

    fn write_to(&self, w: &mut Vec<u8>) {
        let grup = crate::groups::common::grup_tag();
        w.push(grup[0]);
        w.push(grup[1]);
        w.push(grup[2]);
        w.push(grup[3]);
        proof {
            crate::util::lemma_serialized_all_prefix_len(self.records@, 0);
        }
        let body = self.records.data_size();
        let total = #[verifier::truncate] ((24usize + body) as u32);
        total.write_to(w);
        let label = AACTRecord::static_tag_name();
        w.push(label[0]);
        w.push(label[1]);
        w.push(label[2]);
        w.push(label[3]);
        let kind: i32 = 0;
        kind.write_to(w);
        self.common.write_to(w);
        self.records.write_to(w);
        proof {
            assert(label@ =~= seq![label@[0], label@[1], label@[2], label@[3]]);
            assert(w@ =~= old(w)@ + self.serialized());
        }
    }
}

impl DataSize for AACTGroup {
    fn data_size(&self) -> (r: usize) {
        proof {
            crate::util::lemma_serialized_all_prefix_len(self.records@, 0);
        }
        24 + self.records.data_size()
    }
}

impl FromTopGroup for AACTGroup {
    /// Only groups labelled with the action-record tag convert.
    open spec fn spec_label_ok(group: &TopGroup) -> bool {
        group.label@ == AACTRecord::spec_static_tag_name()
    }

    /// The body must be exactly a run of records that all carry the
    /// action-record tag and convert.
    open spec fn spec_accepts(group: &TopGroup) -> bool {
        spec_body_converts::<AACTRecord>(group.data@)
    }

    /// The metadata carries over; the byte image is pinned by the
    /// conversion contract itself.
    open spec fn spec_is_interp(group: &TopGroup, v: &Self) -> bool {
        v.common == group.common
    }


    fn from_top_group(group: &TopGroup) -> (r: Result<Self, FromTopGroupError>) {
        let records = match parse_records(group.data.as_slice()) {
            Ok(recs) => recs,
            Err(e) => {
                proof {
                    assert forall|recs: Seq<crate::records::common::GeneralRecord>|
                        !(#[trigger] crate::util::spec_serialized_all(recs) == group.data@
                            && spec_run_converts::<AACTRecord>(recs)) by {
                        if crate::util::spec_serialized_all(recs) == group.data@
                            && spec_run_converts::<AACTRecord>(recs) {
                            crate::records::common::lemma_wf_records_image_parseable(recs);
                        }
                    }
                }
                return Err(FromTopGroupError::ParseError(e));
            },
        };
        let aact_tag = AACTRecord::static_tag_name();
        let mut i: usize = 0;
        while i < records.len()
            invariant
                0 <= i <= records@.len(),
                aact_tag@ == AACTRecord::spec_static_tag_name(),
                spec_records_parseable(group.data@),
                crate::util::spec_serialized_all(records@) == group.data@,
                forall|k: int| 0 <= k < records@.len() ==> (#[trigger] records@[k]).wf(),
                forall|k: int|
                    0 <= k < i ==> (#[trigger] records@[k]).tag_name@
                        == AACTRecord::spec_static_tag_name(),
            decreases records@.len() - i,
        {
            if !crate::util::tag_eq(&records[i].tag_name, &aact_tag) {
                proof {
                    lemma_aact_body_mismatch(group.data@, records@, i as int);
                }
                return Err(
                    FromTopGroupError::RecordError(
                        crate::records::common::FromRecordError::UnexpectedField(
                            records[i].tag_name,
                        ),
                    ),
                );
            }
            i += 1;
        }
        let converted = match crate::groups::common::convert_all_records_into::<AACTRecord>(
            &records,
        ) {
            Ok(v) => v,
            Err(e) => {
                proof {
                    let bad = choose|k: int|
                        0 <= k < records@.len() && !crate::groups::common::R_accepts::<
                            AACTRecord,
                        >(records@[k]);
                    lemma_aact_body_mismatch(group.data@, records@, bad);
                }
                return Err(e);
            },
        };
        let v = AACTGroup { common: group.common, records: converted };
        proof {
            assert(spec_run_converts::<AACTRecord>(records@));
            assert(spec_body_converts::<AACTRecord>(group.data@));
            lemma_serialized_all_pointwise(converted@, records@);
            assert(v.serialized() =~= group.serialized());
        }
        Ok(v)
    }
}

/// A body whose own decomposition has a record of the wrong tag, or one
/// the conversion rejects, is the image of no fully converting run: record
/// runs with the same image are the same records, and the verdict depends
/// only on their views.
proof fn lemma_aact_body_mismatch(
    body: Seq<u8>,
    parsed: Seq<crate::records::common::GeneralRecord>,
    i: int,
)
    requires
        crate::util::spec_serialized_all(parsed) == body,
        forall|k: int| 0 <= k < parsed.len() ==> (#[trigger] parsed[k]).wf(),
        0 <= i < parsed.len(),
        parsed[i].tag_name@ != AACTRecord::spec_static_tag_name() || !crate::groups::common::R_accepts::<AACTRecord>(parsed[i]),
    ensures
        !spec_body_converts::<AACTRecord>(body),
{
    assert forall|recs: Seq<crate::records::common::GeneralRecord>|
        !(#[trigger] crate::util::spec_serialized_all(recs) == body && spec_run_converts::<
            AACTRecord,
        >(recs)) by {
        if crate::util::spec_serialized_all(recs) == body && spec_run_converts::<AACTRecord>(
            recs,
        ) {
            crate::records::common::lemma_record_run_serialized_injective(recs, parsed);
            assert(recs[i].eqv(&parsed[i]));
            crate::records::aact::lemma_aact_accepts_respects_views(recs[i], parsed[i]);
        }
    }
}

/// Runs whose images agree element for element have the same image.
proof fn lemma_serialized_all_pointwise(a: Seq<AACTRecord>, b: Seq<crate::records::common::GeneralRecord>)
    requires
        a.len() == b.len(),
        forall|i: int| 0 <= i < a.len() ==> (#[trigger] a[i]).serialized() == b[i].serialized(),
    ensures
        spec_serialized_all(a) == spec_serialized_all(b),
    decreases a.len(),
{
    if a.len() > 0 {
        lemma_serialized_all_pointwise(a.skip(1), b.skip(1));
    }
}

} // verus!

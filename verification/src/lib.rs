//! Parser and re-serializer for a chunked, tag-prefixed binary object
//! database format: groups contain records or further groups, records
//! contain fields, and every chunk is a 4-byte tag beside a length-prefixed
//! body, all lengths little-endian.
//!
//! Every decoded structure carries an exact byte image (`serialized`);
//! parsing is proved to consume exactly that image, writing is proved to
//! reproduce it, and computed sizes always equal written lengths, so a
//! parsed file round-trips byte for byte, unknown chunks included.
use vstd::prelude::*;

pub mod fields;
pub mod groups;
pub mod parse;
pub mod records;
pub mod util;

use groups::common::{spec_grup_tag, GeneralGroup};
use parse::{spec_u32_of_le, ParseError};
use records::common::{
    spec_fields_parseable, FromRecord, FromRecordError, GeneralRecord, StaticTypeNamed,
};
use groups::common::FromTopGroup;
use util::{spec_serialized_all, DataSize, Writable};

verus! {

/// A top-level chunk in its structurally parsed, not yet specialized form.
#[derive(Debug, Clone)]
pub enum GeneralTop {
    Record(GeneralRecord),
    Group(GeneralGroup),
}

impl GeneralTop {
    /// Records never carry the group sentinel as their tag, and both shapes
    /// fit their length prefixes.
    pub open spec fn wf(&self) -> bool {
        match *self {
            GeneralTop::Record(rec) => rec.wf() && rec.tag_name@ != spec_grup_tag(),
            GeneralTop::Group(g) => g.wf(),
        }
    }

    /// View equality: same shape with equal parts.
    pub open spec fn eqv(&self, other: &GeneralTop) -> bool {
        match (self, other) {
            (GeneralTop::Record(a), GeneralTop::Record(b)) => a.eqv(b),
            (GeneralTop::Group(a), GeneralTop::Group(b)) => a.eqv(b),
            _ => false,
        }
    }
}

impl Writable for GeneralTop {
    open spec fn serialized(&self) -> Seq<u8> {
        match *self {
            GeneralTop::Record(rec) => rec.serialized(),
            GeneralTop::Group(g) => g.serialized(),
        }
    }

    fn write_to(&self, w: &mut Vec<u8>) {
        match self {
            GeneralTop::Record(rec) => rec.write_to(w),
            GeneralTop::Group(g) => g.write_to(w),
        }
    }
}

impl DataSize for GeneralTop {
    fn data_size(&self) -> (r: usize) {
        match self {
            GeneralTop::Record(rec) => rec.data_size(),
            GeneralTop::Group(g) => g.data_size(),
        }
    }
}

/// The byte length of the one top-level chunk at the front of `data`, or
/// nothing when no whole chunk starts there. The sentinel tag decides the
/// shape: a group's length field counts its header, a record's does not.
pub open spec fn spec_top_len(data: Seq<u8>) -> Option<int> {
    if data.len() >= 4 && data.subrange(0, 4) == spec_grup_tag() {
        let total = spec_u32_of_le(data.subrange(4, 8)) as int;
        if data.len() >= 24 && total >= 24 && data.len() >= total {
            Option::Some(total)
        } else {
            Option::None
        }
    } else {
        let size = spec_u32_of_le(data.subrange(4, 8)) as int;
        if data.len() >= 24 && data.len() >= 24 + size && spec_fields_parseable(
            data.subrange(24, 24 + size),
        ) {
            Option::Some(24 + size)
        } else {
            Option::None
        }
    }
}

/// Whether a buffer is exactly a run of whole top-level chunks.
pub open spec fn spec_tops_parseable(data: Seq<u8>) -> bool
    decreases data.len(),
{
    if data.len() == 0 {
        true
    } else {
        match spec_top_len(data) {
            Option::Some(n) => {
                if 0 < n <= data.len() {
                    spec_tops_parseable(data.skip(n))
                } else {
                    false
                }
            },
            Option::None => false,
        }
    }
}

/// The errors a whole-file parse can produce.
#[derive(Debug, Clone)]
pub enum GeneralError {
    TopGroup(groups::common::FromTopGroupError),
    Record(FromRecordError),
    ParseError(ParseError),
}

/// Reads one top-level chunk: a group when the next 4 bytes are the group
/// sentinel, otherwise a record. Succeeds if and only if a whole chunk
/// starts here; the consumed bytes are exactly the chunk's byte image.
pub fn parse_top_level(data: &[u8]) -> (r: Result<(&[u8], GeneralTop), GeneralError>)
    ensures
        (r is Ok) <==> (spec_top_len(data@) is Some),
        r matches Ok((rem, t)) ==> {
            let n = spec_top_len(data@)->Some_0;
            &&& t.wf()
            &&& t.serialized() == data@.take(n)
            &&& rem@ == data@.skip(n)
            &&& data@ == t.serialized() + rem@
            &&& (t is Group <==> (data@.len() >= 4 && data@.subrange(0, 4) == spec_grup_tag()))
        },
{
    let is_group = if data.len() >= 4 {
        let head = util::as_4_bytes(data);
        let grup = groups::common::grup_tag();
        proof {
            assert(head@ =~= data@.subrange(0, 4));
        }
        util::tag_eq(&head, &grup)
    } else {
        false
    };
    if is_group {
        match GeneralGroup::parse(data) {
            Ok((rem, g)) => Ok((rem, GeneralTop::Group(g))),
            Err(e) => Err(GeneralError::ParseError(e)),
        }
    } else {
        match GeneralRecord::parse(data) {
            Ok((rem, rec)) => {
                proof {
                    assert(rec.tag_name@ == data@.subrange(0, 4));
                }
                Ok((rem, GeneralTop::Record(rec)))
            },
            Err(e) => Err(GeneralError::ParseError(e)),
        }
    }
}

/// Splits a whole buffer into its run of top-level chunks. Succeeds if and
/// only if the buffer is such a run; the chunks' byte images concatenate
/// back to the buffer, and nothing is left over.
#[verifier::loop_isolation(false)]
pub fn parse_general(data: &[u8]) -> (r: Result<Vec<GeneralTop>, GeneralError>)
    ensures
        r matches Ok(v) ==> {
            &&& spec_serialized_all(v@) == data@
            &&& forall|i: int| 0 <= i < v@.len() ==> (#[trigger] v@[i]).wf()
        },
        (r is Ok) <==> spec_tops_parseable(data@),
{
    let mut tops: Vec<GeneralTop> = Vec::new();
    let mut cur: &[u8] = data;
    while cur.len() > 0
        invariant
            spec_serialized_all(tops@) + cur@ == data@,
            forall|i: int| 0 <= i < tops@.len() ==> (#[trigger] tops@[i]).wf(),
            cur@.len() <= data@.len(),
            spec_tops_parseable(data@) == spec_tops_parseable(cur@),
        decreases cur@.len(),
    {
        match parse_top_level(cur) {
            Ok((next, t)) => {
                proof {
                    util::lemma_serialized_all_push(tops@, t);
                    assert(spec_serialized_all(tops@.push(t)) + next@ =~= data@);
                }
                tops.push(t);
                cur = next;
            },
            Err(e) => {
                proof {
                    assert(!spec_tops_parseable(cur@));
                }
                return Err(e);
            },
        }
    }
    proof {
        assert(cur@ =~= Seq::<u8>::empty());
        assert(spec_serialized_all(tops@) + cur@ =~= spec_serialized_all(tops@));
    }
    Ok(tops)
}

/// Two well-formed top-level chunks with the same byte image are the same
/// chunk, shape included: records never carry the group sentinel.
pub proof fn lemma_top_serialized_injective(a: GeneralTop, b: GeneralTop)
    requires
        a.wf(),
        b.wf(),
        a.serialized() == b.serialized(),
    ensures
        a.eqv(&b),
{
    match (a, b) {
        (GeneralTop::Record(x), GeneralTop::Record(y)) => {
            records::common::lemma_record_serialized_injective(x, y);
        },
        (GeneralTop::Group(x), GeneralTop::Group(y)) => {
            groups::common::lemma_group_serialized_injective(x, y);
        },
        (GeneralTop::Record(x), GeneralTop::Group(y)) => {
            assert(x.tag_name@ =~= x.serialized().subrange(0, 4));
            assert(y.serialized().subrange(0, 4) =~= spec_grup_tag());
        },
        (GeneralTop::Group(x), GeneralTop::Record(y)) => {
            assert(y.tag_name@ =~= y.serialized().subrange(0, 4));
            assert(x.serialized().subrange(0, 4) =~= spec_grup_tag());
        },
    }
}

/// Re-parsing what a parse wrote changes nothing: any two well-formed runs
/// of top-level chunks with the same byte image are structurally equal,
/// chunk for chunk. With `parse_general`'s own contract — the parsed run's
/// image is exactly the input, and writing emits exactly that image — this
/// says a parse of the written output equals the parse of the original.
pub proof fn lemma_reparse_stable(a: Seq<GeneralTop>, b: Seq<GeneralTop>)
    requires
        forall|i: int| 0 <= i < a.len() ==> (#[trigger] a[i]).wf(),
        forall|i: int| 0 <= i < b.len() ==> (#[trigger] b[i]).wf(),
        spec_serialized_all(a) == spec_serialized_all(b),
    ensures
        a.len() == b.len(),
        forall|i: int| 0 <= i < a.len() ==> (#[trigger] a[i]).eqv(&b[i]),
    decreases a.len(),
{
    let sa = spec_serialized_all(a);
    let sb = spec_serialized_all(b);
    if a.len() == 0 {
        if b.len() > 0 {
            lemma_top_image_min_len(b[0]);
            assert(sb.len() >= b[0].serialized().len());
        }
    } else if b.len() == 0 {
        lemma_top_image_min_len(a[0]);
        assert(sa.len() >= a[0].serialized().len());
    } else {
        let a0 = a[0];
        let b0 = b[0];
        lemma_top_image_min_len(a0);
        lemma_top_image_min_len(b0);
        let la = a0.serialized().len() as int;
        let lb = b0.serialized().len() as int;
        assert(a0.serialized() =~= sa.subrange(0, la));
        assert(b0.serialized() =~= sb.subrange(0, lb));
        lemma_top_image_len_determined(a0, sa);
        lemma_top_image_len_determined(b0, sb);
        assert(la == lb);
        assert(a0.serialized() =~= sa.subrange(0, la));
        assert(b0.serialized() =~= sb.subrange(0, lb));
        lemma_top_serialized_injective(a0, b0);
        assert(spec_serialized_all(a.skip(1)) =~= sa.subrange(la, sa.len() as int));
        assert(spec_serialized_all(b.skip(1)) =~= sb.subrange(lb, sb.len() as int));
        lemma_reparse_stable(a.skip(1), b.skip(1));
        assert forall|i: int| 0 <= i < a.len() implies (#[trigger] a[i]).eqv(&b[i]) by {
            if i > 0 {
                assert(a.skip(1)[i - 1].eqv(&b.skip(1)[i - 1]));
            }
        }
    }
}

/// A well-formed top-level chunk's image has at least its 24-byte header.
proof fn lemma_top_image_min_len(t: GeneralTop)
    requires
        t.wf(),
    ensures
        t.serialized().len() >= 24,
{
    match t {
        GeneralTop::Record(rec) => {},
        GeneralTop::Group(g) => {
            groups::common::lemma_group_type_label_len(g.group_type);
        },
    }
}

/// A well-formed chunk's image determines the image's length from its first
/// 8 bytes: the length field sits in bytes 4 to 8 either way, and the
/// sentinel distinguishes how it counts.
proof fn lemma_top_image_len_determined(t: GeneralTop, s: Seq<u8>)
    requires
        t.wf(),
        t.serialized().len() <= s.len(),
        t.serialized() == s.subrange(0, t.serialized().len() as int),
    ensures
        t.serialized().len() == (if s.subrange(0, 4) == spec_grup_tag() {
            spec_u32_of_le(s.subrange(4, 8)) as int
        } else {
            24 + spec_u32_of_le(s.subrange(4, 8)) as int
        }),
        (t is Group) <==> (s.subrange(0, 4) == spec_grup_tag()),
{
    let img = t.serialized();
    match t {
        GeneralTop::Record(rec) => {
            let body = spec_serialized_all(rec.fields@);
            parse::lemma_u32_le_round_trip(body.len() as u32);
            assert(img.subrange(0, 4) =~= rec.tag_name@);
            assert(img.subrange(4, 8) =~= parse::spec_u32_le(body.len() as u32));
            assert(s.subrange(0, 4) =~= img.subrange(0, 4));
            assert(s.subrange(4, 8) =~= img.subrange(4, 8));
        },
        GeneralTop::Group(g) => {
            groups::common::lemma_group_type_label_len(g.group_type);
            parse::lemma_u32_le_round_trip((24 + g.data@.len()) as u32);
            assert(img.subrange(0, 4) =~= spec_grup_tag());
            assert(img.subrange(4, 8) =~= parse::spec_u32_le((24 + g.data@.len()) as u32));
            assert(s.subrange(0, 4) =~= img.subrange(0, 4));
            assert(s.subrange(4, 8) =~= img.subrange(4, 8));
        },
    }
}

/// A top-level record, either specialized into its concrete type or kept in
/// its general, tag-preserving form. Specialization never changes the byte
/// image.
#[derive(Debug, Clone)]
pub enum Record {
    AACT(records::aact::AACTRecord),
    ANIO(records::anio::ANIORecord),
    Unknown(GeneralRecord),
}

impl Writable for Record {
    open spec fn serialized(&self) -> Seq<u8> {
        match *self {
            Record::AACT(rec) => rec.serialized(),
            Record::ANIO(rec) => rec.serialized(),
            Record::Unknown(rec) => rec.serialized(),
        }
    }

    fn write_to(&self, w: &mut Vec<u8>) {
        match self {
            Record::AACT(rec) => rec.write_to(w),
            Record::ANIO(rec) => rec.write_to(w),
            Record::Unknown(rec) => rec.write_to(w),
        }
    }
}

impl DataSize for Record {
    fn data_size(&self) -> (r: usize) {
        match self {
            Record::AACT(rec) => rec.data_size(),
            Record::ANIO(rec) => rec.data_size(),
            Record::Unknown(rec) => rec.data_size(),
        }
    }
}

/// A top-level group, either specialized or kept general; `UnknownTop`
/// holds a group known to be of the top-level kind whose record type has no
/// registered concrete form.
#[derive(Debug, Clone)]
pub enum Group {
    AACT(groups::aact::AACTGroup),
    Unknown(GeneralGroup),
    UnknownTop(groups::common::TopGroup),
}

impl Writable for Group {
    open spec fn serialized(&self) -> Seq<u8> {
        match *self {
            Group::AACT(g) => g.serialized(),
            Group::Unknown(g) => g.serialized(),
            Group::UnknownTop(g) => g.serialized(),
        }
    }

    fn write_to(&self, w: &mut Vec<u8>) {
        match self {
            Group::AACT(g) => g.write_to(w),
            Group::Unknown(g) => g.write_to(w),
            Group::UnknownTop(g) => g.write_to(w),
        }
    }
}

impl DataSize for Group {
    fn data_size(&self) -> (r: usize) {
        match self {
            Group::AACT(g) => g.data_size(),
            Group::Unknown(g) => g.data_size(),
            Group::UnknownTop(g) => g.data_size(),
        }
    }
}

/// A top-level chunk after dispatch: a record or a group, concrete where a
/// decoder is registered for its tag and general otherwise.
#[derive(Debug, Clone)]
pub enum Top {
    Record(Record),
    Group(Group),
}

impl Writable for Top {
    open spec fn serialized(&self) -> Seq<u8> {
        match *self {
            Top::Record(rec) => rec.serialized(),
            Top::Group(g) => g.serialized(),
        }
    }

    fn write_to(&self, w: &mut Vec<u8>) {
        match self {
            Top::Record(rec) => rec.write_to(w),
            Top::Group(g) => g.write_to(w),
        }
    }
}

impl DataSize for Top {
    fn data_size(&self) -> (r: usize) {
        match self {
            Top::Record(rec) => rec.data_size(),
            Top::Group(g) => g.data_size(),
        }
    }
}



impl Top {
    /// View equality after dispatch: the same classification with equal
    /// parts. Concrete values compare by their byte image and metadata,
    /// which their conversion contracts pin; general forms compare view
    /// for view.
    pub open spec fn eqv(&self, other: &Top) -> bool {
        match (self, other) {
            (Top::Record(Record::AACT(x)), Top::Record(Record::AACT(y))) => x.serialized()
                == y.serialized() && x.common == y.common,
            (Top::Record(Record::ANIO(x)), Top::Record(Record::ANIO(y))) => x.serialized()
                == y.serialized() && x.common == y.common,
            (Top::Record(Record::Unknown(x)), Top::Record(Record::Unknown(y))) => x.eqv(y),
            (Top::Group(Group::AACT(x)), Top::Group(Group::AACT(y))) => x.serialized()
                == y.serialized() && x.common == y.common,
            (Top::Group(Group::Unknown(x)), Top::Group(Group::Unknown(y))) => x.eqv(y),
            (Top::Group(Group::UnknownTop(x)), Top::Group(Group::UnknownTop(y))) => x.label@
                == y.label@ && x.common == y.common && x.data@ == y.data@,
            _ => false,
        }
    }
}

/// How dispatch classifies one structurally parsed chunk: a tag with a
/// registered concrete decoder is converted exactly when its shape
/// converts, anything else comes back in the general, tag-preserving form
/// unchanged, and the byte image never changes either way.
pub open spec fn spec_dispatched(t: GeneralTop, r: Top) -> bool {
    &&& r.serialized() == t.serialized()
    &&& (t matches GeneralTop::Record(rec) ==> {
        &&& (rec.tag_name@ == records::aact::AACTRecord::spec_static_tag_name() ==> (
        if records::aact::AACTRecord::spec_accepts(&rec) {
            r matches Top::Record(Record::AACT(c)) && records::aact::AACTRecord::spec_is_interp(
                &rec,
                &c,
            )
        } else {
            r matches Top::Record(Record::Unknown(u)) && u == rec
        }))
        &&& (rec.tag_name@ == records::anio::ANIORecord::spec_static_tag_name() ==> (
        if records::anio::ANIORecord::spec_accepts(&rec) {
            r matches Top::Record(Record::ANIO(c)) && records::anio::ANIORecord::spec_is_interp(
                &rec,
                &c,
            )
        } else {
            r matches Top::Record(Record::Unknown(u)) && u == rec
        }))
        &&& (rec.tag_name@ != records::aact::AACTRecord::spec_static_tag_name()
            && rec.tag_name@ != records::anio::ANIORecord::spec_static_tag_name() ==> (
        r matches Top::Record(Record::Unknown(u)) && u == rec))
    })
    &&& (t matches GeneralTop::Group(g) ==> {
        &&& (!(g.group_type matches groups::common::GroupType::Top(_)) ==> (r matches Top::Group(
            Group::Unknown(u),
        ) && u == g))
        &&& (g.group_type matches groups::common::GroupType::Top(label) ==> (
        if label@ == records::aact::AACTRecord::spec_static_tag_name()
            && groups::common::spec_body_converts::<records::aact::AACTRecord>(g.data@) {
            r matches Top::Group(Group::AACT(c)) && c.common == g.common
        } else {
            r matches Top::Group(Group::UnknownTop(u)) && u.label@ == label@ && u.common
                == g.common && u.data@ == g.data@
        }))
    })
}

/// Specializes one structurally parsed chunk: a tag with a registered
/// concrete decoder is converted exactly when its shape converts, and
/// anything else — an unregistered tag, a non-top group kind, or a chunk a
/// concrete decoder rejects — comes back in the general, tag-preserving
/// form unchanged, so no information is ever lost and the byte image never
/// changes.
#[verifier::rlimit(60)]
pub fn dispatch_top(t: GeneralTop) -> (r: Top)
    requires
        t.wf(),
    ensures
        r.serialized() == t.serialized(),
        spec_dispatched(t, r),
{
    match t {
        GeneralTop::Record(rec) => {
            let aact = records::aact::AACTRecord::static_tag_name();
            let anio = records::anio::ANIORecord::static_tag_name();
            if util::tag_eq(&rec.tag_name, &aact) {
                match records::aact::AACTRecord::from_record(&rec) {
                    Ok(c) => Top::Record(Record::AACT(c)),
                    Err(_) => Top::Record(Record::Unknown(rec)),
                }
            } else if util::tag_eq(&rec.tag_name, &anio) {
                match records::anio::ANIORecord::from_record(&rec) {
                    Ok(c) => Top::Record(Record::ANIO(c)),
                    Err(_) => Top::Record(Record::Unknown(rec)),
                }
            } else {
                Top::Record(Record::Unknown(rec))
            }
        },
        GeneralTop::Group(g) => {
            match g.group_type {
                groups::common::GroupType::Top(label) => {
                    let aact = records::aact::AACTRecord::static_tag_name();
                    if util::tag_eq(&label, &aact) {
                        let tg = groups::common::TopGroup {
                            label,
                            common: g.common,
                            data: g.data,
                        };
                        proof {
                            assert(tg.serialized() =~= g.serialized());
                        }
                        match groups::aact::AACTGroup::from_top_group(&tg) {
                            Ok(c) => Top::Group(Group::AACT(c)),
                            Err(_) => Top::Group(Group::UnknownTop(tg)),
                        }
                    } else {
                        Top::Group(
                            Group::UnknownTop(
                                groups::common::TopGroup { label, common: g.common, data: g.data },
                            ),
                        )
                    }
                },
                _ => Top::Group(Group::Unknown(g)),
            }
        },
    }
}

/// Parses a whole buffer and specializes every chunk: the entry point.
/// Succeeds if and only if the buffer is a clean run of top-level chunks;
/// the returned chunks' byte images concatenate back to the buffer exactly,
/// so writing them out reproduces the input byte for byte.
#[verifier::loop_isolation(false)]
#[verifier::rlimit(50)]
pub fn parse_file(data: &[u8]) -> (r: Result<Vec<Top>, GeneralError>)
    ensures
        r matches Ok(v) ==> spec_serialized_all(v@) == data@,
        r matches Ok(v) ==> (exists|gen: Seq<GeneralTop>|
            {
                &&& #[trigger] spec_serialized_all(gen) == data@
                &&& gen.len() == v@.len()
                &&& forall|i: int| 0 <= i < gen.len() ==> (#[trigger] gen[i]).wf()
                &&& forall|i: int| 0 <= i < gen.len() ==> spec_dispatched(gen[i], #[trigger] v@[i])
            }),
        (r is Ok) <==> spec_tops_parseable(data@),
{
    let general = match parse_general(data) {
        Ok(v) => v,
        Err(e) => {
            return Err(e);
        },
    };
    let ghost orig = general@;
    let mut general = general;
    let mut out: Vec<Top> = Vec::new();
    while general.len() > 0
        invariant
            out@.len() + general@.len() == orig.len(),
            general@ == orig.skip(out@.len() as int),
            forall|i: int| 0 <= i < orig.len() ==> (#[trigger] orig[i]).wf(),
            spec_serialized_all(out@) + spec_serialized_all(general@) == spec_serialized_all(orig),
            forall|i: int| 0 <= i < out@.len() ==> spec_dispatched(orig[i], #[trigger] out@[i]),
        decreases general@.len(),
    {
        let ghost k = out@.len() as int;
        let t = general.remove(0);
        proof {
            assert(t == orig[k]);
            assert(general@ =~= orig.skip(k + 1));
            lemma_serialized_all_head(orig.skip(k));
            assert(orig.skip(k).skip(1) =~= orig.skip(k + 1));
        }
        let d = dispatch_top(t);
        proof {
            util::lemma_serialized_all_push(out@, d);
        }
        out.push(d);
    }
    proof {
        assert(general@ =~= Seq::<GeneralTop>::empty());
        assert(spec_serialized_all(out@) + spec_serialized_all(general@) =~= spec_serialized_all(
            out@,
        ));
        assert(spec_serialized_all(orig) == data@);
    }
    Ok(out)
}

/// A non-empty run's image starts with its head's image.
proof fn lemma_serialized_all_head(s: Seq<GeneralTop>)
    requires
        s.len() > 0,
    ensures
        spec_serialized_all(s) == s[0].serialized() + spec_serialized_all(s.skip(1)),
{
}

/// Structural chunks equal view for view have the same byte image.
pub proof fn lemma_general_top_eqv_serialized(a: GeneralTop, b: GeneralTop)
    requires
        a.eqv(&b),
    ensures
        a.serialized() == b.serialized(),
{
    match (a, b) {
        (GeneralTop::Record(x), GeneralTop::Record(y)) => {
            records::common::lemma_field_run_eqv_serialized(x.fields@, y.fields@);
            assert(x.serialized() =~= y.serialized());
        },
        (GeneralTop::Group(x), GeneralTop::Group(y)) => {
            assert(x.serialized() =~= y.serialized());
        },
        _ => {},
    }
}

/// Dispatch classifies by views alone: structurally equal chunks dispatch
/// to structurally equal results, concrete or general alike.
pub proof fn lemma_dispatch_respects_views(a: GeneralTop, b: GeneralTop, ra: Top, rb: Top)
    requires
        a.wf(),
        b.wf(),
        a.eqv(&b),
        spec_dispatched(a, ra),
        spec_dispatched(b, rb),
    ensures
        ra.eqv(&rb),
{
    lemma_general_top_eqv_serialized(a, b);
    match (a, b) {
        (GeneralTop::Record(x), GeneralTop::Record(y)) => {
            if x.tag_name@ == records::aact::AACTRecord::spec_static_tag_name() {
                records::aact::lemma_aact_accepts_respects_views(x, y);
            } else if x.tag_name@ == records::anio::ANIORecord::spec_static_tag_name() {
                records::anio::lemma_anio_accepts_respects_views(x, y);
            }
        },
        (GeneralTop::Group(x), GeneralTop::Group(y)) => {
            groups::common::lemma_group_type_top_by_kind(x.group_type, y.group_type);
        },
        _ => {},
    }
}

/// Idempotent re-parse, dispatch included: two dispatched runs that arise
/// from byte-equal, well-formed structural runs are structurally equal,
/// chunk for chunk. With `parse_file`'s own contract — every result is the
/// dispatch of a structural run whose image is exactly the input, and
/// writing emits exactly that image — this says a parse of the written
/// output equals the parse of the original, concrete classification
/// included.
pub proof fn lemma_dispatched_reparse_stable(
    a: Seq<GeneralTop>,
    b: Seq<GeneralTop>,
    ra: Seq<Top>,
    rb: Seq<Top>,
)
    requires
        forall|i: int| 0 <= i < a.len() ==> (#[trigger] a[i]).wf(),
        forall|i: int| 0 <= i < b.len() ==> (#[trigger] b[i]).wf(),
        spec_serialized_all(a) == spec_serialized_all(b),
        ra.len() == a.len(),
        rb.len() == b.len(),
        forall|i: int| 0 <= i < a.len() ==> spec_dispatched(a[i], #[trigger] ra[i]),
        forall|i: int| 0 <= i < b.len() ==> spec_dispatched(b[i], #[trigger] rb[i]),
    ensures
        ra.len() == rb.len(),
        forall|i: int| 0 <= i < ra.len() ==> (#[trigger] ra[i]).eqv(&rb[i]),
{
    lemma_reparse_stable(a, b);
    assert forall|i: int| 0 <= i < ra.len() implies (#[trigger] ra[i]).eqv(&rb[i]) by {
        lemma_dispatch_respects_views(a[i], b[i], ra[i], rb[i]);
    }
}

} // verus!

//! Generic group layer: the "GRUP" chunk whose 4-byte length counts the
//! whole chunk, header included, whose label is read according to a 32-bit
//! discriminant, and whose body is a raw run of records or further groups.
use crate::parse::{
    le_i32, le_u32, spec_i32_le, spec_i32_of_le, spec_u16_le, spec_u16_of_le, spec_u32_le,
    spec_u32_of_le, tag, take, Parse, ParseError,
};
use crate::records::common::{
    spec_records_parseable, FromRecord, FromRecordError, GeneralRecord, StaticTypeNamed,
};
use crate::records::formid::FormId;
use crate::records::version_control_info::VersionControlInfo;
use crate::util::{as_4_bytes, spec_serialized_all, DataSize, Position, StaticDataSize, Writable};
use vstd::prelude::*;

verus! {

/// Group header size: sentinel tag, total length, label, discriminant,
/// version-control stamp, and one unknown 32-bit value.
pub const GROUPH_SIZE: usize = 24;

/// The group sentinel tag, "GRUP" in ASCII.
pub open spec fn spec_grup_tag() -> Seq<u8> {
    seq![0x47u8, 0x52u8, 0x55u8, 0x50u8]
}

/// The group sentinel tag as an array.
pub fn grup_tag() -> (r: [u8; 4])
    ensures
        r@ == spec_grup_tag(),
{
    let r = [0x47u8, 0x52u8, 0x55u8, 0x50u8];
    proof {
        assert(r@ =~= spec_grup_tag());
    }
    r
}

/// The fixed metadata block every group carries: a version-control stamp
/// and one 32-bit value whose meaning is not settled upstream.
#[derive(Debug, Copy, Clone, PartialEq, Eq, Structural)]
pub struct CommonGroupInfo {
    pub version_control_info: VersionControlInfo,
    /// Kept verbatim; upstream readings of this value vary by group kind
    pub unknown: u32,
}

impl Writable for CommonGroupInfo {
    open spec fn serialized(&self) -> Seq<u8> {
        self.version_control_info.serialized() + spec_u32_le(self.unknown)
    }

    fn write_to(&self, w: &mut Vec<u8>) {
        self.version_control_info.write_to(w);
        self.unknown.write_to(w);
        proof {
            assert(w@ =~= old(w)@ + self.serialized());
        }
    }
}

impl StaticDataSize for CommonGroupInfo {
    open spec fn spec_static_size() -> nat {
        8
    }

    proof fn lemma_static_size(&self) {
    }

    fn static_data_size() -> (r: usize) {
        8
    }
}

impl DataSize for CommonGroupInfo {
    fn data_size(&self) -> (r: usize) {
        8
    }
}

/// A group's kind together with its 4-byte label, whose reading depends on
/// the 32-bit discriminant beside it. An out-of-range discriminant decodes
/// to `Unknown`, never an error: the kind is informational, and the raw
/// bytes are kept so the chunk still round-trips.
#[derive(Debug, Copy, Clone)]
pub enum GroupType {
    /// Records of one top-level type; 0
    Top([u8; 4]),
    /// Children of a world record; 1
    WorldChildren(FormId),
    /// Interior cell block number; 2
    InteriorCellBlock(u32),
    /// Interior cell sub-block number; 3
    InteriorSubCellBlock(u32),
    /// Exterior cell grid position, stored y before x; 4
    ExteriorCellBlock(Position<u16>),
    /// Exterior cell sub-block grid position, stored y before x; 5
    ExteriorCellSubBlock(Position<u16>),
    /// Children of a cell record; 6
    CellChildren(FormId),
    /// Children of a topic record; 7
    TopicChildren(FormId),
    /// Persistent children of a cell record; 8
    CellPersistentChildren(FormId),
    /// Temporary children of a cell record; 9
    CellTemporaryChildren(FormId),
    /// Any other discriminant, with its raw label kept verbatim
    Unknown { kind: i32, label: [u8; 4] },
}

impl GroupType {
    /// The 4 label bytes this kind writes.
    pub open spec fn spec_label(&self) -> Seq<u8> {
        match *self {
            GroupType::Top(label) => label@,
            GroupType::WorldChildren(id) => spec_u32_le(id.id),
            GroupType::InteriorCellBlock(n) => spec_u32_le(n),
            GroupType::InteriorSubCellBlock(n) => spec_u32_le(n),
            GroupType::ExteriorCellBlock(pos) => spec_u16_le(pos.y) + spec_u16_le(pos.x),
            GroupType::ExteriorCellSubBlock(pos) => spec_u16_le(pos.y) + spec_u16_le(pos.x),
            GroupType::CellChildren(id) => spec_u32_le(id.id),
            GroupType::TopicChildren(id) => spec_u32_le(id.id),
            GroupType::CellPersistentChildren(id) => spec_u32_le(id.id),
            GroupType::CellTemporaryChildren(id) => spec_u32_le(id.id),
            GroupType::Unknown { kind: _, label } => label@,
        }
    }

    /// The discriminant this kind writes.
    pub open spec fn spec_kind(&self) -> i32 {
        match *self {
            GroupType::Top(_) => 0,
            GroupType::WorldChildren(_) => 1,
            GroupType::InteriorCellBlock(_) => 2,
            GroupType::InteriorSubCellBlock(_) => 3,
            GroupType::ExteriorCellBlock(_) => 4,
            GroupType::ExteriorCellSubBlock(_) => 5,
            GroupType::CellChildren(_) => 6,
            GroupType::TopicChildren(_) => 7,
            GroupType::CellPersistentChildren(_) => 8,
            GroupType::CellTemporaryChildren(_) => 9,
            GroupType::Unknown { kind, label: _ } => kind,
        }
    }

    /// View equality: same discriminant and same label bytes.
    pub open spec fn eqv(&self, other: &GroupType) -> bool {
        self.spec_kind() == other.spec_kind() && self.spec_label() == other.spec_label()
    }

    /// Canonical form: the `Unknown` variant only carries discriminants
    /// that no named variant covers.
    pub open spec fn wf(&self) -> bool {
        (*self) matches GroupType::Unknown { kind, label: _ } ==> !(0 <= kind <= 9)
    }

    /// Reads a kind from a discriminant and the 4 label bytes beside it;
    /// total, an out-of-range discriminant yields `Unknown`.
    pub fn from_info(kind: i32, data: &[u8]) -> (r: GroupType)
        requires
            data@.len() >= 4,
        ensures
            r.wf(),
            r.spec_kind() == kind,
            r.spec_label() == data@.take(4),
            kind == 0 ==> (r matches GroupType::Top(label) && label@ == data@.take(4)),
    {
        let label = as_4_bytes(data);
        let ghost l = data@.take(4);
        proof {
            crate::parse::lemma_u32_le_bytes_round_trip(l);
            crate::parse::lemma_u16_le_bytes_round_trip(l.subrange(0, 2));
            crate::parse::lemma_u16_le_bytes_round_trip(l.subrange(2, 4));
        }
        if kind == 0 {
            GroupType::Top(label)
        } else if kind == 1 {
            GroupType::WorldChildren(FormId::from_bytes(label))
        } else if kind == 2 {
            GroupType::InteriorCellBlock(u32_from_label(&label))
        } else if kind == 3 {
            GroupType::InteriorSubCellBlock(u32_from_label(&label))
        } else if kind == 4 {
            let r = GroupType::ExteriorCellBlock(position_from_label(&label));
            proof {
                assert(label@.subrange(0, 2) =~= l.subrange(0, 2));
                assert(label@.subrange(2, 4) =~= l.subrange(2, 4));
            }
            r
        } else if kind == 5 {
            let r = GroupType::ExteriorCellSubBlock(position_from_label(&label));
            proof {
                assert(label@.subrange(0, 2) =~= l.subrange(0, 2));
                assert(label@.subrange(2, 4) =~= l.subrange(2, 4));
            }
            r
        } else if kind == 6 {
            GroupType::CellChildren(FormId::from_bytes(label))
        } else if kind == 7 {
            GroupType::TopicChildren(FormId::from_bytes(label))
        } else if kind == 8 {
            GroupType::CellPersistentChildren(FormId::from_bytes(label))
        } else if kind == 9 {
            GroupType::CellTemporaryChildren(FormId::from_bytes(label))
        } else {
            GroupType::Unknown { kind, label }
        }
    }

    /// Reads a kind from the wire: 4 label bytes, then the discriminant.
    pub fn parse(data: &[u8]) -> (r: Result<(&[u8], GroupType), ParseError>)
        ensures
            (r is Ok) <==> data@.len() >= 8,
            r matches Ok((rem, g)) ==> {
                &&& g.wf()
                &&& g.spec_kind() == spec_i32_of_le(data@.subrange(4, 8))
                &&& g.spec_label() == data@.subrange(0, 4)
                &&& (g.spec_kind() == 0 ==> (g matches GroupType::Top(label) && label@
                    == data@.subrange(0, 4)))
                &&& g.serialized() == data@.take(8)
                &&& rem@ == data@.skip(8)
            },
            r matches Err(e) ==> e is UnexpectedEOF,
    {
        let (rest, label) = match take(data, 4) {
            Ok(p) => p,
            Err(e) => {
                return Err(e);
            },
        };
        let (rest, kind) = match le_i32(rest) {
            Ok(p) => p,
            Err(e) => {
                return Err(e);
            },
        };
        let g = GroupType::from_info(kind, label);
        proof {
            assert(data@.skip(4).take(4) =~= data@.subrange(4, 8));
            assert(label@.take(4) =~= data@.subrange(0, 4));
            crate::parse::lemma_i32_le_bytes_round_trip(data@.subrange(4, 8));
            assert(g.serialized() =~= data@.take(8));
            assert(rest@ =~= data@.skip(8));
        }
        Ok((rest, g))
    }

    /// The 4 label bytes, as written.
    pub fn get_label(&self) -> (r: [u8; 4])
        ensures
            r@ == self.spec_label(),
    {
        match self {
            GroupType::Top(label) => *label,
            GroupType::WorldChildren(id) => id.as_bytes(),
            GroupType::CellChildren(id) => id.as_bytes(),
            GroupType::TopicChildren(id) => id.as_bytes(),
            GroupType::CellPersistentChildren(id) => id.as_bytes(),
            GroupType::CellTemporaryChildren(id) => id.as_bytes(),
            GroupType::InteriorCellBlock(n) => u32_to_label(*n),
            GroupType::InteriorSubCellBlock(n) => u32_to_label(*n),
            GroupType::ExteriorCellBlock(pos) => position_to_label(pos),
            GroupType::ExteriorCellSubBlock(pos) => position_to_label(pos),
            GroupType::Unknown { kind: _, label } => *label,
        }
    }

    /// The discriminant, as written.
    pub fn get_name(&self) -> (r: i32)
        ensures
            r == self.spec_kind(),
    {
        match self {
            GroupType::Top(_) => 0,
            GroupType::WorldChildren(_) => 1,
            GroupType::InteriorCellBlock(_) => 2,
            GroupType::InteriorSubCellBlock(_) => 3,
            GroupType::ExteriorCellBlock(_) => 4,
            GroupType::ExteriorCellSubBlock(_) => 5,
            GroupType::CellChildren(_) => 6,
            GroupType::TopicChildren(_) => 7,
            GroupType::CellPersistentChildren(_) => 8,
            GroupType::CellTemporaryChildren(_) => 9,
            GroupType::Unknown { kind, label: _ } => *kind,
        }
    }
}

/// The `u32` denoted by a 4-byte label.
fn u32_from_label(label: &[u8; 4]) -> (r: u32)
    ensures
        r == spec_u32_of_le(label@),
{
    (label[0] as u32) | ((label[1] as u32) << 8) | ((label[2] as u32) << 16) | ((
    label[3] as u32) << 24)
}

/// The 4-byte label of a `u32`.
fn u32_to_label(v: u32) -> (r: [u8; 4])
    ensures
        r@ == spec_u32_le(v),
{
    let r = [(v & 0xff) as u8, ((v >> 8) & 0xff) as u8, ((v >> 16) & 0xff) as u8, ((v >> 24)
        & 0xff) as u8];
    proof {
        assert(r@ =~= spec_u32_le(v));
    }
    r
}

/// The grid position denoted by a 4-byte label, which stores y before x.
fn position_from_label(label: &[u8; 4]) -> (r: Position<u16>)
    ensures
        r.x == spec_u16_of_le(label@.subrange(2, 4)),
        r.y == spec_u16_of_le(label@.subrange(0, 2)),
{
    let y = (label[0] as u16) | ((label[1] as u16) << 8);
    let x = (label[2] as u16) | ((label[3] as u16) << 8);
    Position { x, y }
}

/// The 4-byte label of a grid position: y's bytes, then x's.
fn position_to_label(pos: &Position<u16>) -> (r: [u8; 4])
    ensures
        r@ == spec_u16_le(pos.y) + spec_u16_le(pos.x),
{
    let y = pos.y;
    let x = pos.x;
    let r = [(y & 0xff) as u8, ((y >> 8) & 0xff) as u8, (x & 0xff) as u8, ((x >> 8) & 0xff) as u8];
    proof {
        assert(r@ =~= spec_u16_le(y) + spec_u16_le(x));
    }
    r
}

impl Writable for GroupType {
    /// Label bytes first, then the discriminant, little-endian.
    open spec fn serialized(&self) -> Seq<u8> {
        self.spec_label() + spec_i32_le(self.spec_kind())
    }

    fn write_to(&self, w: &mut Vec<u8>) {
        let label = self.get_label();
        w.push(label[0]);
        w.push(label[1]);
        w.push(label[2]);
        w.push(label[3]);
        let kind = self.get_name();
        kind.write_to(w);
        proof {
            lemma_group_type_label_len(*self);
            assert(label@ =~= seq![label@[0], label@[1], label@[2], label@[3]]);
            assert(w@ =~= old(w)@ + self.serialized());
        }
    }
}

impl StaticDataSize for GroupType {
    open spec fn spec_static_size() -> nat {
        8
    }

    proof fn lemma_static_size(&self) {
        crate::parse::lemma_u16_le_round_trip(0);
        crate::parse::lemma_u32_le_round_trip(0);
        lemma_group_type_label_len(*self);
        crate::parse::lemma_i32_le_round_trip(self.spec_kind());
    }

    fn static_data_size() -> (r: usize) {
        8
    }
}

impl DataSize for GroupType {
    fn data_size(&self) -> (r: usize) {
        proof {
            self.lemma_static_size();
        }
        8
    }
}

/// Every group kind's label has exactly 4 bytes.
pub proof fn lemma_group_type_label_len(g: GroupType)
    ensures
        g.spec_label().len() == 4,
{
    crate::parse::lemma_u32_le_round_trip(0);
    crate::parse::lemma_u16_le_round_trip(0);
    match g {
        GroupType::WorldChildren(id) => crate::parse::lemma_u32_le_round_trip(id.id),
        GroupType::InteriorCellBlock(n) => crate::parse::lemma_u32_le_round_trip(n),
        GroupType::InteriorSubCellBlock(n) => crate::parse::lemma_u32_le_round_trip(n),
        GroupType::ExteriorCellBlock(pos) => {
            crate::parse::lemma_u16_le_round_trip(pos.x);
            crate::parse::lemma_u16_le_round_trip(pos.y);
        },
        GroupType::ExteriorCellSubBlock(pos) => {
            crate::parse::lemma_u16_le_round_trip(pos.x);
            crate::parse::lemma_u16_le_round_trip(pos.y);
        },
        GroupType::CellChildren(id) => crate::parse::lemma_u32_le_round_trip(id.id),
        GroupType::TopicChildren(id) => crate::parse::lemma_u32_le_round_trip(id.id),
        GroupType::CellPersistentChildren(id) => crate::parse::lemma_u32_le_round_trip(id.id),
        GroupType::CellTemporaryChildren(id) => crate::parse::lemma_u32_le_round_trip(id.id),
        _ => {},
    }
}

/// A still-undecoded group: its kind, its metadata, and the raw
/// concatenation of its child records and subgroups.
#[derive(Debug, Clone)]
pub struct GeneralGroup {
    pub group_type: GroupType,
    pub common: CommonGroupInfo,
    /// Records and subgroups, still as raw bytes
    pub data: Vec<u8>,
}

impl GeneralGroup {
    /// The whole chunk, header included, fits the 4-byte length prefix, and
    /// the kind is in canonical form.
    pub open spec fn wf(&self) -> bool {
        24 + self.data@.len() <= 0xFFFF_FFFF && self.group_type.wf()
    }

    /// View equality: same kind, same metadata, same body bytes.
    pub open spec fn eqv(&self, other: &GeneralGroup) -> bool {
        &&& self.group_type.eqv(&other.group_type)
        &&& self.common == other.common
        &&& self.data@ == other.data@
    }

    /// Reads one group chunk: the "GRUP" sentinel, the total length (which
    /// counts the 24-byte header itself), the kind, the metadata, then a
    /// body of exactly `total - 24` bytes. Succeeds if and only if the
    /// sentinel matches, the declared total covers the header, and that
    /// many bytes are present; the consumed bytes are exactly the group's
    /// byte image.
    #[verifier::loop_isolation(false)]
    #[verifier::rlimit(30)]
    pub fn parse(data: &[u8]) -> (r: Result<(&[u8], GeneralGroup), ParseError>)
        ensures
            r matches Ok((rem, g)) ==> {
                let total = spec_u32_of_le(data@.subrange(4, 8)) as int;
                &&& g.wf()
                &&& data@ == g.serialized() + rem@
                &&& g.serialized() == data@.take(total)
                &&& g.group_type.spec_label() == data@.subrange(8, 12)
                &&& g.group_type.spec_kind() == spec_i32_of_le(data@.subrange(12, 16))
                &&& (g.group_type.spec_kind() == 0 ==> g.group_type matches GroupType::Top(_))
                &&& g.common == spec_common_group_info_of(data@.subrange(16, 24))
                &&& g.data@ == data@.subrange(24, total)
                &&& rem@ == data@.skip(total)
            },
            (r is Ok) <==> (data@.len() >= 24 && data@.subrange(0, 4) == spec_grup_tag()
                && spec_u32_of_le(data@.subrange(4, 8)) >= 24 && data@.len() >= spec_u32_of_le(
                data@.subrange(4, 8),
            ) as int),
            r matches Err(e) ==> (if data@.len() >= 4 && data@.subrange(0, 4)
                == spec_grup_tag() {
                e is UnexpectedEOF
            } else {
                e matches ParseError::ExpectedBytes(b) && b@ == spec_grup_tag()
            }),
    {
        if data.len() < 4 {
            return Err(ParseError::ExpectedBytes(grup_vec()));
        }
        let head = as_4_bytes(data);
        let grup = grup_tag();
        if !crate::util::tag_eq(&head, &grup) {
            proof {
                assert(head@ =~= data@.subrange(0, 4));
            }
            return Err(ParseError::ExpectedBytes(grup_vec()));
        }
        proof {
            assert(head@ =~= data@.subrange(0, 4));
        }
        let rest = vstd::slice::slice_subrange(data, 4, data.len());
        let (rest, total) = match le_u32(rest) {
            Ok(p) => p,
            Err(e) => {
                return Err(e);
            },
        };
        proof {
            assert(data@.skip(4).take(4) =~= data@.subrange(4, 8));
        }
        let (rest, group_type) = match GroupType::parse(rest) {
            Ok(p) => p,
            Err(e) => {
                return Err(e);
            },
        };
        proof {
            assert(data@.skip(8).take(8) =~= data@.subrange(8, 16));
            assert(data@.skip(8).take(8).subrange(0, 4) =~= data@.subrange(8, 12));
            assert(data@.skip(8).take(8).subrange(4, 8) =~= data@.subrange(12, 16));
        }
        let (rest, version_control_info) = match VersionControlInfo::parse(rest) {
            Ok(p) => p,
            Err(e) => {
                return Err(e);
            },
        };
        let (rest, unknown) = match le_u32(rest) {
            Ok(p) => p,
            Err(e) => {
                return Err(e);
            },
        };
        if total < 24 {
            return Err(ParseError::UnexpectedEOF);
        }
        let (rest, body) = match take(rest, (total - 24) as usize) {
            Ok(p) => p,
            Err(e) => {
                return Err(e);
            },
        };
        let common = CommonGroupInfo { version_control_info, unknown };
        let g = GeneralGroup { group_type, common, data: vstd::slice::slice_to_vec(body) };
        let ghost n = total as int;
        proof {
            assert(data@.skip(16).take(4) =~= data@.subrange(16, 20));
            assert(data@.skip(20).take(4) =~= data@.subrange(20, 24));
            assert(data@.subrange(16, 24).subrange(0, 4) =~= data@.subrange(16, 20));
            assert(data@.subrange(16, 24).subrange(4, 8) =~= data@.subrange(20, 24));
            assert(g.data@ =~= data@.subrange(24, n));
            crate::parse::lemma_u32_le_bytes_round_trip(data@.subrange(4, 8));
            <VersionControlInfo as Parse>::lemma_bytes_round_trip(data@.subrange(16, 20));
            crate::parse::lemma_u32_le_bytes_round_trip(data@.subrange(20, 24));
            assert(g.group_type.serialized() == data@.subrange(8, 16));
            assert(g.common.serialized() =~= data@.subrange(16, 24));
            assert(g.serialized() =~= data@.take(n));
            assert(rest@ =~= data@.skip(n));
            assert(data@ =~= data@.take(n) + data@.skip(n));
        }
        Ok((rest, g))
    }
}

/// The metadata block eight bytes denote.
pub open spec fn spec_common_group_info_of(s: Seq<u8>) -> CommonGroupInfo {
    CommonGroupInfo {
        version_control_info: <VersionControlInfo as Parse>::spec_decode(s.subrange(0, 4)),
        unknown: spec_u32_of_le(s.subrange(4, 8)),
    }
}

/// The group sentinel as an owned buffer, for error payloads.
fn grup_vec() -> (r: Vec<u8>)
    ensures
        r@ == spec_grup_tag(),
{
    let mut v: Vec<u8> = Vec::new();
    v.push(0x47);
    v.push(0x52);
    v.push(0x55);
    v.push(0x50);
    proof {
        assert(v@ =~= spec_grup_tag());
    }
    v
}

impl Writable for GeneralGroup {
    /// Sentinel, total length including this 24-byte header, kind,
    /// metadata, body.
    open spec fn serialized(&self) -> Seq<u8> {
        spec_grup_tag() + spec_u32_le((24 + self.data@.len()) as u32) + self.group_type.serialized()
            + self.common.serialized() + self.data@
    }

    fn write_to(&self, w: &mut Vec<u8>) {
        proof {
            lemma_group_type_label_len(self.group_type);
        }
        let grup = grup_tag();
        w.push(grup[0]);
        w.push(grup[1]);
        w.push(grup[2]);
        w.push(grup[3]);
        let total = #[verifier::truncate] ((24usize + self.data.len()) as u32);
        total.write_to(w);
        self.group_type.write_to(w);
        self.common.write_to(w);
        let ghost mid = w@;
        let mut j: usize = 0;
        while j < self.data.len()
            invariant
                0 <= j <= self.data@.len(),
                w@ == mid + self.data@.take(j as int),
            decreases self.data@.len() - j,
        {
            w.push(self.data[j]);
            proof {
                assert(self.data@.take(j + 1) =~= self.data@.take(j as int).push(
                    self.data@[j as int],
                ));
            }
            j += 1;
        }
        proof {
            assert(self.data@.take(self.data@.len() as int) =~= self.data@);
            assert(w@ =~= old(w)@ + self.serialized());
        }
    }
}

impl DataSize for GeneralGroup {
    fn data_size(&self) -> (r: usize) {
        proof {
            lemma_group_type_label_len(self.group_type);
            crate::parse::lemma_u32_le_round_trip(0);
            crate::parse::lemma_i32_le_round_trip(self.group_type.spec_kind());
        }
        GROUPH_SIZE + self.data.len()
    }
}

/// Two well-formed groups with the same byte image have the same kind,
/// metadata, and body: a group's image determines it.
pub proof fn lemma_group_serialized_injective(a: GeneralGroup, b: GeneralGroup)
    requires
        a.wf(),
        b.wf(),
        a.serialized() == b.serialized(),
    ensures
        a.eqv(&b),
{
    let sa = a.serialized();
    lemma_group_type_label_len(a.group_type);
    lemma_group_type_label_len(b.group_type);
    crate::parse::lemma_u32_le_round_trip((24 + a.data@.len()) as u32);
    crate::parse::lemma_u32_le_round_trip((24 + b.data@.len()) as u32);
    assert(sa.subrange(4, 8) =~= spec_u32_le((24 + a.data@.len()) as u32));
    assert(b.serialized().subrange(4, 8) =~= spec_u32_le((24 + b.data@.len()) as u32));
    assert(a.data@.len() == b.data@.len());
    assert(a.group_type.spec_label() =~= sa.subrange(8, 12));
    assert(b.group_type.spec_label() =~= sa.subrange(8, 12));
    crate::parse::lemma_i32_le_round_trip(a.group_type.spec_kind());
    crate::parse::lemma_i32_le_round_trip(b.group_type.spec_kind());
    assert(spec_i32_le(a.group_type.spec_kind()) =~= sa.subrange(12, 16));
    assert(spec_i32_le(b.group_type.spec_kind()) =~= sa.subrange(12, 16));
    assert(a.common.serialized() =~= sa.subrange(16, 24));
    assert(b.common.serialized() =~= sa.subrange(16, 24));
    assert(a.common.version_control_info.serialized() =~= sa.subrange(16, 20));
    assert(b.common.version_control_info.serialized() =~= sa.subrange(16, 20));
    crate::parse::lemma_u32_le_round_trip(a.common.unknown);
    crate::parse::lemma_u32_le_round_trip(b.common.unknown);
    assert(spec_u32_le(a.common.unknown) =~= sa.subrange(20, 24));
    assert(spec_u32_le(b.common.unknown) =~= sa.subrange(20, 24));
    assert(a.data@ =~= sa.subrange(24, sa.len() as int));
    assert(b.data@ =~= sa.subrange(24, sa.len() as int));
}


/// Canonical kinds equal on views agree on being the top-level variant,
/// with equal labels: the discriminant decides the variant.
pub proof fn lemma_group_type_top_by_kind(a: GroupType, b: GroupType)
    requires
        a.wf(),
        b.wf(),
        a.eqv(&b),
    ensures
        (a matches GroupType::Top(la) ==> b matches GroupType::Top(lb) && la@ == lb@),
        (!(a matches GroupType::Top(_)) ==> !(b matches GroupType::Top(_))),
{
    match (a, b) {
        (GroupType::Top(la), GroupType::Top(lb)) => {
            assert(la@ =~= lb@);
        },
        _ => {
            // equal discriminants and canonical forms put both on the same
            // side of the top-level kind
        },
    }
}

/// Writes a group header: the "GRUP" sentinel, then the group's whole
/// encoded size, header included, as a little-endian `u32`.
pub fn write_group_header<T: DataSize>(group: &T, w: &mut Vec<u8>)
    requires
        group.serialized().len() <= usize::MAX,
    ensures
        final(w)@ == old(w)@ + spec_grup_tag() + spec_u32_le(group.serialized().len() as u32),
{
    let grup = grup_tag();
    w.push(grup[0]);
    w.push(grup[1]);
    w.push(grup[2]);
    w.push(grup[3]);
    let size = group.data_size();
    let size32 = #[verifier::truncate] (size as u32);
    size32.write_to(w);
    proof {
        assert(w@ =~= old(w)@ + spec_grup_tag() + spec_u32_le(group.serialized().len() as u32));
    }
}

/// A group already known to hold top-level records of one type: its 4-byte
/// record-type label, its metadata, and its raw body.
#[derive(Debug, Clone)]
pub struct TopGroup {
    pub label: [u8; 4],
    pub common: CommonGroupInfo,
    pub data: Vec<u8>,
}

impl TopGroup {
    /// The whole chunk fits the 4-byte length prefix.
    pub open spec fn wf(&self) -> bool {
        24 + self.data@.len() <= 0xFFFF_FFFF
    }
}

impl Writable for TopGroup {
    /// The image of the same group in its general form.
    open spec fn serialized(&self) -> Seq<u8> {
        spec_grup_tag() + spec_u32_le((24 + self.data@.len()) as u32) + self.label@ + spec_i32_le(0)
            + self.common.serialized() + self.data@
    }

    fn write_to(&self, w: &mut Vec<u8>) {
        let grup = grup_tag();
        w.push(grup[0]);
        w.push(grup[1]);
        w.push(grup[2]);
        w.push(grup[3]);
        let total = #[verifier::truncate] ((24usize + self.data.len()) as u32);
        total.write_to(w);
        w.push(self.label[0]);
        w.push(self.label[1]);
        w.push(self.label[2]);
        w.push(self.label[3]);
        let kind: i32 = 0;
        kind.write_to(w);
        self.common.write_to(w);
        let ghost mid = w@;
        let mut j: usize = 0;
        while j < self.data.len()
            invariant
                0 <= j <= self.data@.len(),
                w@ == mid + self.data@.take(j as int),
            decreases self.data@.len() - j,
        {
            w.push(self.data[j]);
            proof {
                assert(self.data@.take(j + 1) =~= self.data@.take(j as int).push(
                    self.data@[j as int],
                ));
            }
            j += 1;
        }
        proof {
            assert(self.data@.take(self.data@.len() as int) =~= self.data@);
            assert(self.label@ =~= seq![self.label@[0], self.label@[1], self.label@[2], self.label@[3]]);
            assert(w@ =~= old(w)@ + self.serialized());
        }
    }
}

impl DataSize for TopGroup {
    fn data_size(&self) -> (r: usize) {
        GROUPH_SIZE + self.data.len()
    }
}

/// A concrete shape that a `GeneralGroup` of the right kind converts into
/// without bytes changing meaning; the conversion itself cannot fail, so a
/// caller must check the kind first.
pub trait FromGeneralGroup: Sized {
    /// The group kinds this conversion takes.
    spec fn spec_group_ok(group: &GeneralGroup) -> bool;

    /// Whether `v` is the concrete reading of `group`, stated over views.
    spec fn spec_is_interp(group: &GeneralGroup, v: &Self) -> bool;

    /// Converts a group of an acceptable kind.
    fn from_general_group(group: GeneralGroup) -> (r: Self)
        requires
            Self::spec_group_ok(&group),
        ensures
            Self::spec_is_interp(&group, &r),
    ;
}

impl FromGeneralGroup for TopGroup {
    /// Only groups of the top-level record kind convert.
    open spec fn spec_group_ok(group: &GeneralGroup) -> bool {
        group.group_type matches GroupType::Top(_)
    }

    /// The label, metadata, and body carry over unchanged, so the byte
    /// image is the group's own.
    open spec fn spec_is_interp(group: &GeneralGroup, v: &Self) -> bool {
        &&& v.label@ == group.group_type.spec_label()
        &&& v.common == group.common
        &&& v.data@ == group.data@
        &&& v.serialized() == group.serialized()
    }

    fn from_general_group(group: GeneralGroup) -> (r: Self)
    {
        match group.group_type {
            GroupType::Top(label) => {
                let r = TopGroup { label, common: group.common, data: group.data };
                proof {
                    assert(r.serialized() =~= group.serialized());
                }
                r
            },
            _ => {
                proof {
                    assert(false);
                }
                TopGroup { label: grup_tag(), common: group.common, data: group.data }
            },
        }
    }
}

/// The errors concrete-group conversion can produce.
#[derive(Debug, Clone)]
pub enum FromTopGroupError {
    /// A contained record failed to convert
    RecordError(FromRecordError),
    /// The group body was not a clean run of records
    ParseError(ParseError),
}

/// A concrete group that a `TopGroup` with the right label converts into;
/// the conversion never changes the byte image.
pub trait FromTopGroup: Sized + Writable {
    /// The labels this conversion takes.
    spec fn spec_label_ok(group: &TopGroup) -> bool;

    /// Whether this group converts to the concrete type.
    spec fn spec_accepts(group: &TopGroup) -> bool;

    /// Whether `v` is the concrete reading of `group`, stated over views.
    spec fn spec_is_interp(group: &TopGroup, v: &Self) -> bool;

    /// Converts an opaque top-level group exactly when it is acceptable, or
    /// reports why its body or one of its records does not fit.
    fn from_top_group(group: &TopGroup) -> (r: Result<Self, FromTopGroupError>)
        requires
            group.wf(),
            Self::spec_label_ok(group),
        ensures
            (r is Ok) <==> Self::spec_accepts(group),
            r matches Ok(v) ==> Self::spec_is_interp(group, &v) && v.serialized()
                == group.serialized(),
            (r matches Err(e) && e is ParseError) <==> !spec_records_parseable(group.data@),
    ;
}


/// Whether every record of a run is well formed, carries `T`'s tag, and
/// converts to `T`.
pub open spec fn spec_run_converts<T: FromRecord>(recs: Seq<GeneralRecord>) -> bool {
    &&& forall|i: int| 0 <= i < recs.len() ==> (#[trigger] recs[i]).wf()
    &&& forall|i: int|
        0 <= i < recs.len() ==> (#[trigger] recs[i]).tag_name@ == T::spec_static_tag_name()
    &&& forall|i: int| 0 <= i < recs.len() ==> R_accepts::<T>(#[trigger] recs[i])
}

/// Whether a group body is exactly the image of a run of records that all
/// convert to `T`.
pub open spec fn spec_body_converts<T: FromRecord>(body: Seq<u8>) -> bool {
    exists|recs: Seq<GeneralRecord>|
        #[trigger] spec_serialized_all(recs) == body && spec_run_converts::<T>(recs)
}

/// Converts every record of a run into one concrete type, in order. Returns
/// the converted run exactly when every record converts, and otherwise the
/// error of the first record that does not.
#[verifier::loop_isolation(false)]
pub fn convert_all_records_into<T: FromRecord>(records: &Vec<GeneralRecord>) -> (r: Result<
    Vec<T>,
    FromTopGroupError,
>)
    requires
        forall|i: int| 0 <= i < records@.len() ==> (#[trigger] records@[i]).wf(),
        forall|i: int|
            0 <= i < records@.len() ==> (#[trigger] records@[i]).tag_name@
                == T::spec_static_tag_name(),
    ensures
        (r is Ok) <==> (forall|i: int|
            0 <= i < records@.len() ==> R_accepts::<T>(#[trigger] records@[i])),
        r matches Ok(v) ==> {
            &&& v@.len() == records@.len()
            &&& forall|i: int|
                0 <= i < records@.len() ==> R_is_interp::<T>(#[trigger] records@[i], v@[i])
        },
        r matches Err(e) ==> (exists|i: int|
            {
                &&& 0 <= i < records@.len()
                &&& !R_accepts::<T>(#[trigger] records@[i])
                &&& e == FromTopGroupError::RecordError(R_reject_err::<T>(records@[i]))
                &&& forall|j: int| 0 <= j < i ==> R_accepts::<T>(#[trigger] records@[j])
            }),
{
    let mut out: Vec<T> = Vec::new();
    let mut i: usize = 0;
    while i < records.len()
        invariant
            0 <= i <= records@.len(),
            out@.len() == i,
            forall|k: int|
                0 <= k < i ==> R_accepts::<T>(#[trigger] records@[k]) && R_is_interp::<T>(
                    records@[k],
                    out@[k],
                ),
        decreases records@.len() - i,
    {
        match T::from_record(&records[i]) {
            Ok(v) => {
                out.push(v);
            },
            Err(e) => {
                return Err(FromTopGroupError::RecordError(e));
            },
        }
        i += 1;
    }
    Ok(out)
}

/// Whether `T` accepts a record; a readable alias for use in quantifiers.
pub open spec fn R_accepts<T: FromRecord>(record: GeneralRecord) -> bool {
    T::spec_accepts(&record)
}

/// Whether `v` is `T`'s reading of a record; alias for use in quantifiers.
pub open spec fn R_is_interp<T: FromRecord>(record: GeneralRecord, v: T) -> bool {
    T::spec_is_interp(&record, &v) && v.serialized() == record.serialized()
}

/// The error `T` gives a rejected record; alias for use in quantifiers.
pub open spec fn R_reject_err<T: FromRecord>(record: GeneralRecord) -> FromRecordError {
    T::spec_reject_err(&record)
}

} // verus!

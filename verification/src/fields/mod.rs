//! Generic field layer: the 4-byte-tag + 2-byte-length chunk shape shared
//! by every field inside a record body, and the conversion contract that
//! turns an opaque field into a typed one.
use crate::parse::{le_u16, spec_u16_le, spec_u16_of_le, take, ParseError};
use crate::util::{as_4_bytes, DataSize, StaticDataSize, Writable};
use vstd::prelude::*;

pub mod dest;
pub mod edid;
pub mod formid_wrap;
pub mod full;
pub mod item;
pub mod kwda;
pub mod modl;
pub mod obnd;
pub mod rgbu;

verus! {

/// Field header size: 4 tag bytes plus the 2-byte body length.
pub const FIELDH_SIZE: usize = 6;

/// A still-undecoded field chunk: its 4-byte tag and its raw body. The
/// body's length is what the 2-byte length prefix declares.
#[derive(Debug, Clone)]
pub struct GeneralField {
    pub tag_name: [u8; 4],
    pub data: Vec<u8>,
}

impl GeneralField {
    /// A field body must fit its 2-byte length prefix.
    pub open spec fn wf(&self) -> bool {
        self.data@.len() <= 0xFFFF
    }

    /// View equality: same tag bytes and same body bytes.
    pub open spec fn eqv(&self, other: &GeneralField) -> bool {
        self.tag_name@ == other.tag_name@ && self.data@ == other.data@
    }

    /// An owned copy with the same tag and body bytes.
    pub fn duplicate(&self) -> (r: GeneralField)
        ensures
            r.tag_name@ == self.tag_name@,
            r.data@ == self.data@,
            r.serialized() == self.serialized(),
            r.eqv(self),
    {
        GeneralField {
            tag_name: self.tag_name,
            data: vstd::slice::slice_to_vec(self.data.as_slice()),
        }
    }

    /// Builds a field from its tag and body.
    pub fn new(tag_name: [u8; 4], data: Vec<u8>) -> (r: GeneralField)
        ensures
            r.tag_name@ == tag_name@,
            r.data@ == data@,
    {
        GeneralField { tag_name, data }
    }

    /// Reads one field chunk: tag, body length, then exactly that many body
    /// bytes. Succeeds if and only if the input holds a whole chunk; the
    /// consumed bytes are exactly the field's byte image.
    pub fn parse(data: &[u8]) -> (r: Result<(&[u8], GeneralField), ParseError>)
        ensures
            r matches Ok((rem, f)) ==> {
                let n = 6 + spec_u16_of_le(data@.subrange(4, 6)) as int;
                &&& f.wf()
                &&& data@ == f.serialized() + rem@
                &&& f.serialized() == data@.take(n)
                &&& f.tag_name@ == data@.subrange(0, 4)
                &&& f.data@ == data@.subrange(6, n)
                &&& rem@ == data@.skip(n)
            },
            (r is Ok) <==> (data@.len() >= 6 && data@.len() >= 6 + spec_u16_of_le(
                data@.subrange(4, 6),
            ) as int),
            r matches Err(e) ==> e is UnexpectedEOF,
    {
        let (rest, name) = match take(data, 4) {
            Ok(p) => p,
            Err(e) => {
                return Err(e);
            },
        };
        let tag_name = as_4_bytes(name);
        let (rest, size) = match le_u16(rest) {
            Ok(p) => p,
            Err(e) => {
                return Err(e);
            },
        };
        let (rest, body) = match take(rest, size as usize) {
            Ok(p) => p,
            Err(e) => {
                proof {
                    assert(data@.skip(4).take(2) =~= data@.subrange(4, 6));
                }
                return Err(e);
            },
        };
        let f = GeneralField { tag_name, data: vstd::slice::slice_to_vec(body) };
        proof {
            let n = 6 + size as int;
            assert(data@.skip(4).take(2) =~= data@.subrange(4, 6));
            crate::parse::lemma_u16_le_bytes_round_trip(data@.subrange(4, 6));
            assert(f.serialized() =~= data@.take(n));
            assert(rest@ =~= data@.skip(n));
            assert(f.data@ =~= data@.subrange(6, n));
            assert(f.tag_name@ =~= data@.subrange(0, 4));
            assert(data@ =~= data@.take(n) + data@.skip(n));
        }
        Ok((rest, f))
    }
}

impl Writable for GeneralField {
    /// Tag, little-endian body length, body.
    open spec fn serialized(&self) -> Seq<u8> {
        self.tag_name@ + spec_u16_le(self.data@.len() as u16) + self.data@
    }

    fn write_to(&self, w: &mut Vec<u8>) {
        let ghost orig = w@;
        let mut i: usize = 0;
        while i < 4
            invariant
                0 <= i <= 4,
                w@ == orig + self.tag_name@.take(i as int),
            decreases 4 - i,
        {
            w.push(self.tag_name[i]);
            proof {
                assert(self.tag_name@.take(i + 1) =~= self.tag_name@.take(i as int).push(
                    self.tag_name@[i as int],
                ));
            }
            i += 1;
        }
        proof {
            assert(self.tag_name@.take(4) =~= self.tag_name@);
        }
        let len16 = #[verifier::truncate] (self.data.len() as u16);
        len16.write_to(w);
        let mut j: usize = 0;
        while j < self.data.len()
            invariant
                0 <= j <= self.data@.len(),
                w@ == orig + self.tag_name@ + spec_u16_le(self.data@.len() as u16) + self.data@.take(
                    j as int,
                ),
            decreases self.data@.len() - j,
        {
            w.push(self.data[j]);
            proof {
                assert(self.data@.take(j + 1) =~= self.data@.take(j as int).push(
                    self.data@[j as int],
                ));
            }
            j += 1;
        }
        proof {
            assert(self.data@.take(self.data@.len() as int) =~= self.data@);
            assert(w@ =~= orig + self.serialized());
        }
    }
}

impl DataSize for GeneralField {
    fn data_size(&self) -> (r: usize) {
        FIELDH_SIZE + self.data.len()
    }
}

/// Two well-formed fields with the same byte image have the same tag and
/// body: a field's image determines it.
pub proof fn lemma_field_serialized_injective(a: GeneralField, b: GeneralField)
    requires
        a.wf(),
        b.wf(),
        a.serialized() == b.serialized(),
    ensures
        a.eqv(&b),
{
    crate::parse::lemma_u16_le_round_trip(a.data@.len() as u16);
    crate::parse::lemma_u16_le_round_trip(b.data@.len() as u16);
    assert(a.data@.len() as u16 == a.data@.len());
    assert(b.data@.len() as u16 == b.data@.len());
    assert(a.serialized().subrange(4, 6) =~= spec_u16_le(a.data@.len() as u16));
    assert(b.serialized().subrange(4, 6) =~= spec_u16_le(b.data@.len() as u16));
    assert(a.data@.len() == b.data@.len());
    assert(a.tag_name@ =~= a.serialized().subrange(0, 4));
    assert(b.tag_name@ =~= b.serialized().subrange(0, 4));
    assert(a.data@ =~= a.serialized().subrange(6, a.serialized().len() as int));
    assert(b.data@ =~= b.serialized().subrange(6, b.serialized().len() as int));
}

/// The errors a field-to-typed-value conversion can produce.
#[derive(Debug, Clone)]
pub enum FromFieldError {
    /// An unexpected end of fields
    UnexpectedEnd,
    /// Expected a field with this specific tag
    ExpectedSpecificField([u8; 4]),
    ParseError(ParseError),
}

/// A typed field that a `GeneralField` carrying this type's tag and a
/// well-formed body converts into; the conversion never changes the byte
/// image. The caller checks the tag, as the dispatch layer always does.
pub trait FromField: Sized + Writable + crate::records::common::StaticTypeNamed {
    /// Whether this field body converts to a typed value.
    spec fn spec_accepts(field: &GeneralField) -> bool;

    /// Whether `v` is the typed reading of `field`, stated over views.
    spec fn spec_is_interp(field: &GeneralField, v: &Self) -> bool;

    /// The error a rejected body produces.
    spec fn spec_reject_err(field: &GeneralField) -> FromFieldError;

    /// Converts an opaque field into this typed field. An accepted field
    /// yields exactly its typed reading, whose byte image is the field's
    /// own; a rejected field yields exactly the named error.
    fn from_field(field: &GeneralField) -> (r: Result<Self, FromFieldError>)
        requires
            field.tag_name@ == Self::spec_static_tag_name(),
        ensures
            Self::spec_accepts(field) ==> (r matches Ok(v) && Self::spec_is_interp(field, &v)),
            !Self::spec_accepts(field) ==> (r matches Err(e) && e == Self::spec_reject_err(field)),
            r matches Ok(v) ==> v.serialized() == field.serialized(),
    ;
}

/// The byte image of one field chunk: tag, body length, body.
pub open spec fn spec_field_image(tag: Seq<u8>, body: Seq<u8>) -> Seq<u8> {
    tag + spec_u16_le(body.len() as u16) + body
}

/// Writes a field header: the tag, then the body length (total size minus
/// the header's own 6 bytes) as a little-endian `u16`.
pub fn write_field_header(tag_name: &[u8; 4], body_len: usize, w: &mut Vec<u8>)
    requires
        body_len <= 0xFFFF,
    ensures
        final(w)@ == old(w)@ + tag_name@ + spec_u16_le(body_len as u16),
{
    let ghost orig = w@;
    let mut i: usize = 0;
    while i < 4
        invariant
            0 <= i <= 4,
            w@ == orig + tag_name@.take(i as int),
        decreases 4 - i,
    {
        w.push(tag_name[i]);
        proof {
            assert(tag_name@.take(i + 1) =~= tag_name@.take(i as int).push(
                tag_name@[i as int],
            ));
        }
        i += 1;
    }
    proof {
        assert(tag_name@.take(4) =~= tag_name@);
    }
    let len16 = body_len as u16;
    len16.write_to(w);
}

} // verus!

//! The keyword-count and keyword-array field pair and their folded
//! collection.
use crate::fields::{spec_field_image, write_field_header, FromField, FromFieldError, GeneralField};
use crate::parse::{
    spec_i16_le, spec_i16_of_le, spec_u16_le, spec_u16_of_le, spec_u32_le, spec_u32_of_le, Parse,
    ParseError,
};
use crate::records::common::StaticTypeNamed;
use crate::util::{spec_serialized_all, DataSize, StaticDataSize, Writable};
use vstd::prelude::*;

verus! {

/// Keyword count: how many keyword references the following array holds.
#[derive(Debug, Copy, Clone, PartialEq, Eq, Structural)]
pub struct KSIZ {
    /// Number of keywords in the KWDA array that follows
    pub amount: u32,
}

impl KSIZ {
    /// This field's body bytes: its components' images, in order.
    pub open spec fn spec_body(&self) -> Seq<u8> {
        spec_u32_le(self.amount)
    }
}

impl StaticTypeNamed for KSIZ {
    open spec fn spec_static_tag_name() -> Seq<u8> {
        seq![0x4bu8, 0x53u8, 0x49u8, 0x5au8]
    }

    fn static_tag_name() -> (r: [u8; 4]) {
        let r = [0x4bu8, 0x53u8, 0x49u8, 0x5au8];
        proof {
            assert(r@ =~= Self::spec_static_tag_name());
        }
        r
    }
}

impl Writable for KSIZ {
    open spec fn serialized(&self) -> Seq<u8> {
        spec_field_image(Self::spec_static_tag_name(), self.spec_body())
    }

    fn write_to(&self, w: &mut Vec<u8>) {
        let tag = Self::static_tag_name();
        write_field_header(&tag, 4, w);
        self.amount.write_to(w);
        proof {
            assert(w@ =~= old(w)@ + self.serialized());
        }
    }
}

impl DataSize for KSIZ {
    fn data_size(&self) -> (r: usize) {
        10
    }
}

impl FromField for KSIZ {
    /// The body must be exactly 4 bytes.
    open spec fn spec_accepts(field: &GeneralField) -> bool {
        field.data@.len() == 4
    }

    /// Each component is the little-endian reading of its bytes.
    open spec fn spec_is_interp(field: &GeneralField, v: &KSIZ) -> bool {
        v.amount == spec_u32_of_le(field.data@.subrange(0, 4))
    }

    open spec fn spec_reject_err(field: &GeneralField) -> FromFieldError {
        if field.data@.len() != 4 {
            FromFieldError::ParseError(
                ParseError::ExpectedExact {
                    expected: 4 as usize,
                    found: field.data@.len() as usize,
                },
            )
        } else {
            FromFieldError::ParseError(ParseError::InvalidEnumerationValue)
        }
    }

    fn from_field(field: &GeneralField) -> (r: Result<Self, FromFieldError>) {
        let n = field.data.len();
        if n != 4 {
            return Err(
                FromFieldError::ParseError(ParseError::ExpectedExact { expected: 4, found: n }),
            );
        }
        let body: &[u8] = field.data.as_slice();
        let (rest0, c_amount) = match crate::parse::le_u32(body) {
            Ok(p) => p,
            Err(e) => {
                return Err(FromFieldError::ParseError(e));
            },
        };
        proof {
            assert(body@.take(4) =~= field.data@.subrange(0, 4));
            assert(rest0@ =~= field.data@.skip(4));
        }
        let v = KSIZ { amount: c_amount };
        proof {
            crate::parse::lemma_u32_le_bytes_round_trip(field.data@.subrange(0, 4));
            assert(v.spec_body() =~= field.data@);
            assert(v.serialized() =~= field.serialized());
        }
        Ok(v)
    }
}

/// Keyword array: the keyword references themselves, 4 bytes each. Its
/// element count lives in the KSIZ field before it.
#[derive(Debug, Clone)]
pub struct KWDA {
    /// References to keyword records
    pub keywords: Vec<crate::records::formid::FormId>,
}

impl StaticTypeNamed for KWDA {
    open spec fn spec_static_tag_name() -> Seq<u8> {
        seq![0x4bu8, 0x57u8, 0x44u8, 0x41u8]
    }

    fn static_tag_name() -> (r: [u8; 4]) {
        let r = [0x4bu8, 0x57u8, 0x44u8, 0x41u8];
        proof {
            assert(r@ =~= Self::spec_static_tag_name());
        }
        r
    }
}

impl Writable for KWDA {
    open spec fn serialized(&self) -> Seq<u8> {
        spec_field_image(Self::spec_static_tag_name(), spec_serialized_all(self.keywords@))
    }

    fn write_to(&self, w: &mut Vec<u8>) {
        let tag = Self::static_tag_name();
        proof {
            crate::util::lemma_serialized_all_prefix_len(self.keywords@, 0);
        }
        let body_len = self.keywords.data_size();
        if body_len <= 0xFFFF {
            write_field_header(&tag, body_len, w);
        } else {
            // unreachable for bodies that fit their 2-byte prefix; keep the
            // truncating image the length field has either way
            let len16 = #[verifier::truncate] (body_len as u16);
            write_field_header(&tag, len16 as usize, w);
            proof {
                assert((len16 as usize) as u16 == (spec_serialized_all(self.keywords@).len() as u16));
            }
        }
        self.keywords.write_to(w);
        proof {
            assert(w@ =~= old(w)@ + self.serialized());
        }
    }
}

impl DataSize for KWDA {
    fn data_size(&self) -> (r: usize) {
        proof {
            crate::util::lemma_serialized_all_prefix_len(self.keywords@, 0);
        }
        6 + self.keywords.data_size()
    }
}

impl KWDA {
    /// Reads `amount` keyword references from a field body that must hold
    /// exactly that many; the array's byte image is the field's own.
    pub fn from_field(field: &GeneralField, amount: u32) -> (r: Result<KWDA, FromFieldError>)
        requires
            field.tag_name@ == Self::spec_static_tag_name(),
        ensures
            field.data@.len() == 4 * amount ==> (r matches Ok(v) && {
                &&& v.keywords@.len() == amount
                &&& spec_serialized_all(v.keywords@) == field.data@
                &&& forall|i: int|
                    0 <= i < amount ==> (#[trigger] v.keywords@[i]).id == spec_u32_of_le(
                        field.data@.subrange(4 * i, 4 * i + 4),
                    )
                &&& v.serialized() == field.serialized()
            }),
            field.data@.len() != 4 * amount ==> (r matches Err(e) && e
                == FromFieldError::ParseError(
                ParseError::ExpectedExact { expected: (4 * amount) as usize, found: field.data@.len() as usize },
            )),
    {
        let n = field.data.len();
        if (n as u64) != 4u64 * (amount as u64) {
            let expected = #[verifier::truncate] ((4u64 * (amount as u64)) as usize);
            proof {
                assert(expected == ((4 * amount) as usize)) by (bit_vector)
                    requires
                        expected == ((4u64 * (amount as u64)) as usize) && amount <= 0xFFFF_FFFFu32,
                ;
            }
            return Err(
                FromFieldError::ParseError(ParseError::ExpectedExact { expected, found: n }),
            );
        }
        let amount = amount as usize;
        let body: &[u8] = field.data.as_slice();
        let mut keywords: Vec<crate::records::formid::FormId> = Vec::new();
        let mut i: usize = 0;
        let mut cur: &[u8] = body;
        while i < amount
            invariant
                0 <= i <= amount,
                field.data@.len() == 4 * amount,
                keywords@.len() == i,
                cur@ == field.data@.skip(4 * i),
                spec_serialized_all(keywords@) == field.data@.take(4 * i),
                forall|k: int|
                    0 <= k < i ==> (#[trigger] keywords@[k]).id == spec_u32_of_le(
                        field.data@.subrange(4 * k, 4 * k + 4),
                    ),
            decreases amount - i,
        {
            let (next, id) = match crate::parse::le_u32(cur) {
                Ok(p) => p,
                Err(e) => {
                    return Err(FromFieldError::ParseError(e));
                },
            };
            let f = crate::records::formid::FormId { id };
            proof {
                crate::util::lemma_serialized_all_push(keywords@, f);
                assert(cur@.take(4) =~= field.data@.subrange(4 * i as int, 4 * i as int + 4));
                crate::parse::lemma_u32_le_bytes_round_trip(
                    field.data@.subrange(4 * i as int, 4 * i as int + 4),
                );
                assert(field.data@.take(4 * i as int) + field.data@.subrange(
                    4 * i as int,
                    4 * i as int + 4,
                ) =~= field.data@.take(4 * (i + 1) as int));
                assert(next@ =~= field.data@.skip(4 * (i + 1) as int));
            }
            keywords.push(f);
            cur = next;
            i += 1;
        }
        let v = KWDA { keywords };
        proof {
            assert(field.data@.take(4 * amount as int) =~= field.data@);
            assert(v.serialized() =~= field.serialized());
        }
        Ok(v)
    }
}

/// A keyword count and its keyword array, folded into one unit. Only the
/// array is kept: the count is recomputed from it on write, so the two can
/// never disagree.
#[derive(Debug, Clone)]
pub struct KWDACollection {
    pub keywords: KWDA,
}

impl KWDACollection {
    /// The keyword references this collection holds.
    pub open spec fn spec_keywords(&self) -> Seq<crate::records::formid::FormId> {
        self.keywords.keywords@
    }

    /// The count field this collection writes: exactly the array's length.
    pub fn create_ksiz(&self) -> (r: KSIZ)
        requires
            self.spec_keywords().len() <= 0xFFFF,
        ensures
            r.amount == self.spec_keywords().len(),
    {
        KSIZ { amount: self.keywords.keywords.len() as u32 }
    }

    /// Folds a count field and the keyword array that must immediately
    /// follow it. The cursor ends just past the array; the collection's
    /// byte image is the two consumed fields' own.
    pub fn collect(
        ksiz: KSIZ,
        fields: &Vec<GeneralField>,
        pos: &mut usize,
    ) -> (r: Result<KWDACollection, FromFieldError>)
        requires
            *old(pos) <= fields@.len(),
            ksiz.amount <= 0xFFFF,
        ensures
            r matches Ok(c) ==> {
                let p = *old(pos) as int;
                &&& *final(pos) == p + 1
                &&& p < fields@.len()
                &&& fields@[p].tag_name@ == KWDA::spec_static_tag_name()
                &&& fields@[p].data@.len() == 4 * ksiz.amount
                &&& c.spec_keywords().len() == ksiz.amount
                &&& c.serialized() == ksiz.serialized() + fields@[p].serialized()
            },
            r is Err ==> !({
                let p = *old(pos) as int;
                &&& p < fields@.len()
                &&& fields@[p].tag_name@ == KWDA::spec_static_tag_name()
                &&& fields@[p].data@.len() == 4 * ksiz.amount
            }),
    {
        let expected = KWDA::static_tag_name();
        if *pos >= fields.len() {
            return Err(FromFieldError::ExpectedSpecificField(expected));
        }
        let field = &fields[*pos];
        if !crate::util::tag_eq(&field.tag_name, &expected) {
            return Err(FromFieldError::ExpectedSpecificField(expected));
        }
        let kwda = match KWDA::from_field(field, ksiz.amount) {
            Ok(v) => v,
            Err(e) => {
                return Err(e);
            },
        };
        *pos = *pos + 1;
        let c = KWDACollection { keywords: kwda };
        proof {
            crate::parse::lemma_u32_le_round_trip(ksiz.amount);
            assert(c.serialized() =~= ksiz.serialized() + fields@[*old(pos) as int].serialized());
        }
        Ok(c)
    }
}

impl Writable for KWDACollection {
    /// The recomputed count field's image, then the array's.
    open spec fn serialized(&self) -> Seq<u8> {
        spec_field_image(
            KSIZ::spec_static_tag_name(),
            spec_u32_le(self.spec_keywords().len() as u32),
        ) + self.keywords.serialized()
    }

    fn write_to(&self, w: &mut Vec<u8>) {
        proof {
            crate::util::lemma_serialized_all_len(self.keywords.keywords@);
        }
        let amount = #[verifier::truncate] (self.keywords.keywords.len() as u32);
        let ksiz = KSIZ { amount };
        ksiz.write_to(w);
        self.keywords.write_to(w);
        proof {
            assert(w@ =~= old(w)@ + self.serialized());
        }
    }
}

impl DataSize for KWDACollection {
    fn data_size(&self) -> (r: usize) {
        proof {
            crate::util::lemma_serialized_all_len(self.keywords.keywords@);
        }
        16 + self.keywords.keywords.len() * 4
    }
}

} // verus!

//! Typed pieces of the file-header record: the override list.
use crate::fields::{spec_field_image, write_field_header, FromField, FromFieldError, GeneralField};
use crate::parse::{
    spec_i16_le, spec_i16_of_le, spec_u16_le, spec_u16_of_le, spec_u32_le, spec_u32_of_le, Parse,
    ParseError,
};
use crate::records::common::StaticTypeNamed;
use crate::util::{DataSize, StaticDataSize, Writable};
use vstd::prelude::*;

verus! {

/// Overridden forms: the references a master-file patch overrides, 4 bytes
/// each, filling the whole body.
#[derive(Debug, Clone)]
pub struct ONAM {
    /// References to the overridden records
    pub overrides: Vec<crate::records::formid::FormId>,
}

impl StaticTypeNamed for ONAM {
    open spec fn spec_static_tag_name() -> Seq<u8> {
        seq![0x4fu8, 0x4eu8, 0x41u8, 0x4du8]
    }

    fn static_tag_name() -> (r: [u8; 4]) {
        let r = [0x4fu8, 0x4eu8, 0x41u8, 0x4du8];
        proof {
            assert(r@ =~= Self::spec_static_tag_name());
        }
        r
    }
}

impl Writable for ONAM {
    open spec fn serialized(&self) -> Seq<u8> {
        spec_field_image(
            Self::spec_static_tag_name(),
            crate::util::spec_serialized_all(self.overrides@),
        )
    }

    fn write_to(&self, w: &mut Vec<u8>) {
        let tag = Self::static_tag_name();
        proof {
            crate::util::lemma_serialized_all_prefix_len(self.overrides@, 0);
        }
        let body_len = self.overrides.data_size();
        if body_len <= 0xFFFF {
            write_field_header(&tag, body_len, w);
        } else {
            // unreachable for bodies that fit their 2-byte prefix; keep the
            // truncating image the length field has either way
            let len16 = #[verifier::truncate] (body_len as u16);
            write_field_header(&tag, len16 as usize, w);
            proof {
                assert((len16 as usize) as u16 == (crate::util::spec_serialized_all(
                    self.overrides@,
                ).len() as u16));
            }
        }
        self.overrides.write_to(w);
        proof {
            assert(w@ =~= old(w)@ + self.serialized());
        }
    }
}

impl DataSize for ONAM {
    fn data_size(&self) -> (r: usize) {
        proof {
            crate::util::lemma_serialized_all_prefix_len(self.overrides@, 0);
        }
        6 + self.overrides.data_size()
    }
}

impl FromField for ONAM {
    /// The body must be whole references: a multiple of 4 bytes.
    open spec fn spec_accepts(field: &GeneralField) -> bool {
        field.data@.len() % 4 == 0
    }

    /// Reference `i` is the little-endian reading of bytes `4i` to `4i+4`.
    open spec fn spec_is_interp(field: &GeneralField, v: &ONAM) -> bool {
        &&& v.overrides@.len() == field.data@.len() / 4
        &&& crate::util::spec_serialized_all(v.overrides@) == field.data@
        &&& forall|i: int|
            0 <= i < v.overrides@.len() ==> (#[trigger] v.overrides@[i]).id == spec_u32_of_le(
                field.data@.subrange(4 * i, 4 * i + 4),
            )
    }

    open spec fn spec_reject_err(field: &GeneralField) -> FromFieldError {
        FromFieldError::ParseError(
            ParseError::InvalidByteCount { found: field.data@.len() as usize },
        )
    }

    fn from_field(field: &GeneralField) -> (r: Result<Self, FromFieldError>) {
        let n = field.data.len();
        if n % 4 != 0 {
            return Err(FromFieldError::ParseError(ParseError::InvalidByteCount { found: n }));
        }
        let amount = n / 4;
        let body: &[u8] = field.data.as_slice();
        let mut overrides: Vec<crate::records::formid::FormId> = Vec::new();
        let mut i: usize = 0;
        let mut cur: &[u8] = body;
        while i < amount
            invariant
                0 <= i <= amount,
                amount == field.data@.len() / 4,
                field.data@.len() % 4 == 0,
                overrides@.len() == i,
                cur@ == field.data@.skip(4 * i),
                crate::util::spec_serialized_all(overrides@) == field.data@.take(4 * i),
                forall|k: int|
                    0 <= k < i ==> (#[trigger] overrides@[k]).id == spec_u32_of_le(
                        field.data@.subrange(4 * k, 4 * k + 4),
                    ),
            decreases amount - i,
        {
            let (next, id) = match crate::parse::le_u32(cur) {
                Ok(p) => p,
                Err(e) => {
                    return Err(FromFieldError::ParseError(e));
                },
            };
            let f = crate::records::formid::FormId { id };
            proof {
                crate::util::lemma_serialized_all_push(overrides@, f);
                assert(cur@.take(4) =~= field.data@.subrange(4 * i as int, 4 * i as int + 4));
                crate::parse::lemma_u32_le_bytes_round_trip(
                    field.data@.subrange(4 * i as int, 4 * i as int + 4),
                );
                assert(field.data@.take(4 * i as int) + field.data@.subrange(
                    4 * i as int,
                    4 * i as int + 4,
                ) =~= field.data@.take(4 * (i + 1) as int));
                assert(next@ =~= field.data@.skip(4 * (i + 1) as int));
            }
            overrides.push(f);
            cur = next;
            i += 1;
        }
        let v = ONAM { overrides };
        proof {
            assert(field.data@.take(4 * amount as int) =~= field.data@);
            assert(v.serialized() =~= field.serialized());
        }
        Ok(v)
    }
}

} // verus!

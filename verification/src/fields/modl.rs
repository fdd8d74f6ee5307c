//! The model field and its chained model-data companion.
use crate::fields::{spec_field_image, write_field_header, FromField, FromFieldError, GeneralField};
use crate::parse::{
    spec_i16_le, spec_i16_of_le, spec_u16_le, spec_u16_of_le, spec_u32_le, spec_u32_of_le, Parse,
    ParseError,
};
use crate::records::common::StaticTypeNamed;
use crate::util::{DataSize, StaticDataSize, Writable};
use vstd::prelude::*;

verus! {

/// Model filename: the path of the 3d model file, zero-terminated.
#[derive(Debug, Clone)]
pub struct MODL {
    /// Model path
    pub filename: crate::records::null_terminated_string::NullTerminatedString,
}

impl StaticTypeNamed for MODL {
    open spec fn spec_static_tag_name() -> Seq<u8> {
        seq![0x4du8, 0x4fu8, 0x44u8, 0x4cu8]
    }

    fn static_tag_name() -> (r: [u8; 4]) {
        let r = [0x4du8, 0x4fu8, 0x44u8, 0x4cu8];
        proof {
            assert(r@ =~= Self::spec_static_tag_name());
        }
        r
    }
}

impl Writable for MODL {
    open spec fn serialized(&self) -> Seq<u8> {
        spec_field_image(Self::spec_static_tag_name(), self.filename.serialized())
    }

    fn write_to(&self, w: &mut Vec<u8>) {
        let tag = Self::static_tag_name();
        let body_len = self.filename.data_size();
        if body_len <= 0xFFFF {
            write_field_header(&tag, body_len, w);
        } else {
            // unreachable for bodies that fit their 2-byte prefix; keep the
            // truncating image the length field has either way
            let len16 = #[verifier::truncate] (body_len as u16);
            write_field_header(&tag, (len16 as usize), w);
            proof {
                assert((len16 as usize) as u16 == (self.filename.serialized().len() as u16));
            }
        }
        self.filename.write_to(w);
        proof {
            assert(w@ =~= old(w)@ + self.serialized());
        }
    }
}

impl DataSize for MODL {
    fn data_size(&self) -> (r: usize) {
        6 + self.filename.data_size()
    }
}

impl FromField for MODL {
    /// The body must be one whole zero-terminated string: the final byte is
    /// the sentinel and no earlier byte is.
    open spec fn spec_accepts(field: &GeneralField) -> bool {
        &&& field.data@.len() >= 1
    &&& field.data@[field.data@.len() - 1] == 0
    &&& forall|j: int| 0 <= j < field.data@.len() - 1 ==> field.data@[j] != 0
    }

    /// The value is the body without its final sentinel.
    open spec fn spec_is_interp(field: &GeneralField, v: &MODL) -> bool {
        v.filename.value@ == field.data@.take(field.data@.len() - 1)
    }

    /// A body with no sentinel ends too early; one with bytes after the
    /// first sentinel has trailing data.
    open spec fn spec_reject_err(field: &GeneralField) -> FromFieldError {
        if forall|j: int| 0 <= j < field.data@.len() ==> field.data@[j] != 0 {
            FromFieldError::ParseError(ParseError::UnexpectedEOF)
        } else {
            FromFieldError::ParseError(ParseError::ExpectedEOF)
        }
    }

    fn from_field(field: &GeneralField) -> (r: Result<Self, FromFieldError>) {
        let body: &[u8] = field.data.as_slice();
        let (rest, s) = match crate::records::null_terminated_string::NullTerminatedString::parse(
            body,
        ) {
            Ok(p) => p,
            Err(e) => {
                return Err(FromFieldError::ParseError(e));
            },
        };
        if rest.len() > 0 {
            return Err(FromFieldError::ParseError(ParseError::ExpectedEOF));
        }
        let v = MODL { filename: s };
        proof {
            assert(field.data@.take(field.data@.len() as int) =~= field.data@);
            assert(v.serialized() =~= field.serialized());
        }
        Ok(v)
    }
}

/// Model data: bytes whose layout is not settled upstream, kept verbatim.
#[derive(Debug, Clone)]
pub struct MODT {
    pub values: Vec<u8>,
}

impl StaticTypeNamed for MODT {
    open spec fn spec_static_tag_name() -> Seq<u8> {
        seq![0x4du8, 0x4fu8, 0x44u8, 0x54u8]
    }

    fn static_tag_name() -> (r: [u8; 4]) {
        let r = [0x4du8, 0x4fu8, 0x44u8, 0x54u8];
        proof {
            assert(r@ =~= Self::spec_static_tag_name());
        }
        r
    }
}

impl Writable for MODT {
    open spec fn serialized(&self) -> Seq<u8> {
        spec_field_image(Self::spec_static_tag_name(), self.values@)
    }

    fn write_to(&self, w: &mut Vec<u8>) {
        let tag = Self::static_tag_name();
        let body_len = self.values.len();
        if body_len <= 0xFFFF {
            write_field_header(&tag, body_len, w);
        } else {
            // unreachable for bodies that fit their 2-byte prefix; keep the
            // truncating image the length field has either way
            let len16 = #[verifier::truncate] (body_len as u16);
            write_field_header(&tag, len16 as usize, w);
            proof {
                assert((len16 as usize) as u16 == (self.values@.len() as u16));
            }
        }
        let ghost mid = w@;
        let mut j: usize = 0;
        while j < self.values.len()
            invariant
                0 <= j <= self.values@.len(),
                w@ == mid + self.values@.take(j as int),
            decreases self.values@.len() - j,
        {
            w.push(self.values[j]);
            proof {
                assert(self.values@.take(j + 1) =~= self.values@.take(j as int).push(
                    self.values@[j as int],
                ));
            }
            j += 1;
        }
        proof {
            assert(self.values@.take(self.values@.len() as int) =~= self.values@);
            assert(w@ =~= old(w)@ + self.serialized());
        }
    }
}

impl DataSize for MODT {
    fn data_size(&self) -> (r: usize) {
        6 + self.values.len()
    }
}

impl FromField for MODT {
    /// Any body converts: the bytes are kept as they are.
    open spec fn spec_accepts(field: &GeneralField) -> bool {
        true
    }

    /// The value is the body, verbatim.
    open spec fn spec_is_interp(field: &GeneralField, v: &MODT) -> bool {
        v.values@ == field.data@
    }

    open spec fn spec_reject_err(field: &GeneralField) -> FromFieldError {
        FromFieldError::UnexpectedEnd
    }

    fn from_field(field: &GeneralField) -> (r: Result<Self, FromFieldError>) {
        let v = MODT { values: vstd::slice::slice_to_vec(field.data.as_slice()) };
        proof {
            assert(v.serialized() =~= field.serialized());
        }
        Ok(v)
    }
}

/// A model field and the optional model-data field chained after it.
#[derive(Debug, Clone)]
pub struct MODLCollection {
    pub model: MODL,
    pub texture_data: Option<MODT>,
}

impl MODLCollection {
    /// Folds a model field with the model-data field that may immediately
    /// follow it. The cursor ends just past what was consumed; the
    /// collection's byte image is the model's image followed by the
    /// consumed data field's, if any.
    pub fn collect(model: MODL, fields: &Vec<GeneralField>, pos: &mut usize) -> (r: Result<
        MODLCollection,
        FromFieldError,
    >)
        requires
            *old(pos) <= fields@.len(),
        ensures
            r matches Ok(c) ==> {
                let p = *old(pos) as int;
                &&& c.model == model
                &&& (if p < fields@.len() && fields@[p].tag_name@
                    == MODT::spec_static_tag_name() {
                    &&& *final(pos) == p + 1
                    &&& c.texture_data matches Some(t) && t.values@ == fields@[p].data@
                    &&& c.serialized() == model.serialized() + fields@[p].serialized()
                } else {
                    &&& *final(pos) == p
                    &&& c.texture_data is None
                    &&& c.serialized() == model.serialized()
                })
            },
            r is Ok,
    {
        let tag = MODT::static_tag_name();
        let got: Result<Option<MODT>, FromFieldError> = crate::records::common::get_field(
            fields,
            pos,
            &tag,
        );
        match got {
            Ok(Some(t)) => Ok(MODLCollection { model, texture_data: Some(t) }),
            Ok(None) => Ok(MODLCollection { model, texture_data: None }),
            Err(_) => Ok(MODLCollection { model, texture_data: None }),
        }
    }
}

impl Writable for MODLCollection {
    /// The model's image, then the data field's, if present.
    open spec fn serialized(&self) -> Seq<u8> {
        self.model.serialized() + (match self.texture_data {
            Some(t) => t.serialized(),
            None => Seq::<u8>::empty(),
        })
    }

    fn write_to(&self, w: &mut Vec<u8>) {
        self.model.write_to(w);
        match &self.texture_data {
            Some(t) => {
                t.write_to(w);
            },
            None => {},
        }
        proof {
            assert(w@ =~= old(w)@ + self.serialized());
        }
    }
}

impl DataSize for MODLCollection {
    fn data_size(&self) -> (r: usize) {
        let m = self.model.data_size();
        match &self.texture_data {
            Some(t) => m + t.data_size(),
            None => m,
        }
    }
}

} // verus!

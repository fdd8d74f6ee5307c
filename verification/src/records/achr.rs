//! Typed pieces of actor-reference records: level modifiers and the
//! activation- and enable-parent link fields.
use crate::parse::{Parse, ParseError};
use crate::util::{DataSize, StaticDataSize, Writable};
use vstd::prelude::*;

verus! {

/// The level adjustment a leveled-creature reference applies.
#[derive(Debug, Copy, Clone, PartialEq, Eq, Structural)]
pub enum LevelModifier {
    Easy,
    Medium,
    Hard,
    VeryHard,
}

impl LevelModifier {
    /// The named modifier for an in-range value, nothing otherwise.
    pub fn from_u32(modifier: u32) -> (r: Option<LevelModifier>)
        ensures
            modifier == 0 ==> r == Some(LevelModifier::Easy),
            modifier == 1 ==> r == Some(LevelModifier::Medium),
            modifier == 2 ==> r == Some(LevelModifier::Hard),
            modifier == 3 ==> r == Some(LevelModifier::VeryHard),
            modifier > 3 ==> r is None,
    {
        match modifier {
            0 => Some(LevelModifier::Easy),
            1 => Some(LevelModifier::Medium),
            2 => Some(LevelModifier::Hard),
            3 => Some(LevelModifier::VeryHard),
            _ => None,
        }
    }

    /// The 32-bit value this modifier writes.
    pub fn code(&self) -> (r: u32)
        ensures
            (*self == LevelModifier::Easy ==> r == 0) && (*self == LevelModifier::Medium ==> r
                == 1) && (*self == LevelModifier::Hard ==> r == 2) && (*self
                == LevelModifier::VeryHard ==> r == 3),
    {
        match *self {
            LevelModifier::Easy => 0,
            LevelModifier::Medium => 1,
            LevelModifier::Hard => 2,
            LevelModifier::VeryHard => 3,
        }
    }
}

/// Activation-parent flags: whether only the parent activates the reference.
#[derive(Debug, Copy, Clone, PartialEq, Eq, Structural)]
pub struct XAPDFlags {
    pub flags: u8,
}

impl XAPDFlags {
    /// Wraps a raw flag word.
    pub fn new(flags: u8) -> (r: XAPDFlags)
        ensures
            r.flags == flags,
    {
        XAPDFlags { flags }
    }

    /// Whether the `0b1` bit is set.
    pub fn is_parent_activate_only(&self) -> (r: bool)
        ensures
            r == ((self.flags & 0b1) != 0),
    {
        (self.flags & 0b1) != 0
    }
}

impl Writable for XAPDFlags {
    open spec fn serialized(&self) -> Seq<u8> {
        seq![self.flags]
    }

    fn write_to(&self, w: &mut Vec<u8>) {
        self.flags.write_to(w);
    }
}

impl StaticDataSize for XAPDFlags {
    open spec fn spec_static_size() -> nat {
        1
    }

    proof fn lemma_static_size(&self) {
    }

    fn static_data_size() -> (r: usize) {
        1
    }
}

impl DataSize for XAPDFlags {
    fn data_size(&self) -> (r: usize) {
        1
    }
}

impl Parse for XAPDFlags {
    open spec fn spec_size() -> nat {
        1
    }

    open spec fn spec_valid(s: Seq<u8>) -> bool {
        true
    }

    open spec fn spec_decode(s: Seq<u8>) -> XAPDFlags {
        XAPDFlags { flags: s[0] }
    }

    proof fn lemma_encode_size(v: XAPDFlags) {
    }

    proof fn lemma_round_trip(v: XAPDFlags) {
    }

    proof fn lemma_bytes_round_trip(s: Seq<u8>) {
        assert(Self::spec_decode(s).serialized() =~= s);
    }

    fn parse(data: &[u8]) -> (r: Result<(&[u8], Self), ParseError>) {
        match crate::parse::single(data) {
            Ok((rem, flags)) => Ok((rem, Self { flags })),
            Err(e) => Err(e),
        }
    }
}

/// Enable-parent flags: how a reference follows its parent's enable state.
#[derive(Debug, Copy, Clone, PartialEq, Eq, Structural)]
pub struct XESPFlags {
    pub flags: u32,
}

impl XESPFlags {
    /// Wraps a raw flag word.
    pub fn new(flags: u32) -> (r: XESPFlags)
        ensures
            r.flags == flags,
    {
        XESPFlags { flags }
    }

    /// Whether the `0b1` bit is set.
    pub fn is_set_enable_state_opposite(&self) -> (r: bool)
        ensures
            r == ((self.flags & 0b1) != 0),
    {
        (self.flags & 0b1) != 0
    }

    /// Whether the `0b10` bit is set.
    pub fn is_pop_in(&self) -> (r: bool)
        ensures
            r == ((self.flags & 0b10) != 0),
    {
        (self.flags & 0b10) != 0
    }
}

impl Writable for XESPFlags {
    open spec fn serialized(&self) -> Seq<u8> {
        crate::parse::spec_u32_le(self.flags)
    }

    fn write_to(&self, w: &mut Vec<u8>) {
        self.flags.write_to(w);
    }
}

impl StaticDataSize for XESPFlags {
    open spec fn spec_static_size() -> nat {
        4
    }

    proof fn lemma_static_size(&self) {
    }

    fn static_data_size() -> (r: usize) {
        4
    }
}

impl DataSize for XESPFlags {
    fn data_size(&self) -> (r: usize) {
        4
    }
}

impl Parse for XESPFlags {
    open spec fn spec_size() -> nat {
        4
    }

    open spec fn spec_valid(s: Seq<u8>) -> bool {
        true
    }

    open spec fn spec_decode(s: Seq<u8>) -> XESPFlags {
        XESPFlags { flags: crate::parse::spec_u32_of_le(s) }
    }

    proof fn lemma_encode_size(v: XESPFlags) {
        crate::parse::lemma_u32_le_round_trip(v.flags);
    }

    proof fn lemma_round_trip(v: XESPFlags) {
        crate::parse::lemma_u32_le_round_trip(v.flags);
    }

    proof fn lemma_bytes_round_trip(s: Seq<u8>) {
        crate::parse::lemma_u32_le_bytes_round_trip(s);
    }

    fn parse(data: &[u8]) -> (r: Result<(&[u8], Self), ParseError>) {
        match crate::parse::le_u32(data) {
            Ok((rem, flags)) => Ok((rem, Self { flags })),
            Err(e) => Err(e),
        }
    }
}

/// An enable-parent link: the reference to take the enable state from, and
/// how to follow it; 8 bytes on the wire.
#[derive(Debug, Copy, Clone, PartialEq, Eq, Structural)]
pub struct XESP {
    /// Parent reference to take the enable state from
    pub parent: crate::records::formid::FormId,
    pub flags: XESPFlags,
}

impl Writable for XESP {
    open spec fn serialized(&self) -> Seq<u8> {
        self.parent.serialized() + self.flags.serialized()
    }

    fn write_to(&self, w: &mut Vec<u8>) {
        self.parent.write_to(w);
        self.flags.write_to(w);
        proof {
            assert(w@ =~= old(w)@ + self.serialized());
        }
    }
}

impl StaticDataSize for XESP {
    open spec fn spec_static_size() -> nat {
        8
    }

    proof fn lemma_static_size(&self) {
    }

    fn static_data_size() -> (r: usize) {
        8
    }
}

impl DataSize for XESP {
    fn data_size(&self) -> (r: usize) {
        8
    }
}

/// A linked-reference pair: an optional keyword and the reference it links
/// to; 8 bytes on the wire.
#[derive(Debug, Copy, Clone, PartialEq, Eq, Structural)]
pub struct XLKR {
    /// Zero, or a keyword reference
    pub keyword: crate::records::formid::FormId,
    /// The linked reference
    pub reference: crate::records::formid::FormId,
}

impl Writable for XLKR {
    open spec fn serialized(&self) -> Seq<u8> {
        self.keyword.serialized() + self.reference.serialized()
    }

    fn write_to(&self, w: &mut Vec<u8>) {
        self.keyword.write_to(w);
        self.reference.write_to(w);
        proof {
            assert(w@ =~= old(w)@ + self.serialized());
        }
    }
}

impl StaticDataSize for XLKR {
    open spec fn spec_static_size() -> nat {
        8
    }

    proof fn lemma_static_size(&self) {
    }

    fn static_data_size() -> (r: usize) {
        8
    }
}

impl DataSize for XLKR {
    fn data_size(&self) -> (r: usize) {
        8
    }
}

} // verus!

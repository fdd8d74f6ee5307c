//! The four-byte version-control stamp carried by every record and group.
use crate::parse::{single, Parse, ParseError};
use crate::util::{DataSize, StaticDataSize, Writable};
use vstd::prelude::*;

verus! {

/// Version-control user identifier.
pub type VUID = u8;

/// Version-control stamp: check-out day and month plus the last and current
/// user identifiers, one byte each, in that order on the wire.
#[derive(Debug, Copy, Clone, PartialEq, Eq, Structural)]
pub struct VersionControlInfo {
    /// Day of the month
    pub day: u8,
    /// Months counted from a fixed epoch
    pub month: u8,
    /// User id that last checked this out
    pub last_user_id: VUID,
    /// User id that currently has this checked out
    pub current_user_id: VUID,
}

impl VersionControlInfo {
    /// Builds the stamp from its four parts.
    pub fn new(day: u8, month: u8, last_user_id: VUID, current_user_id: VUID) -> (r:
        VersionControlInfo)
        ensures
            r == (VersionControlInfo { day, month, last_user_id, current_user_id }),
    {
        VersionControlInfo { day, month, last_user_id, current_user_id }
    }
}

impl Writable for VersionControlInfo {
    open spec fn serialized(&self) -> Seq<u8> {
        seq![self.day, self.month, self.last_user_id, self.current_user_id]
    }

    fn write_to(&self, w: &mut Vec<u8>) {
        w.push(self.day);
        w.push(self.month);
        w.push(self.last_user_id);
        w.push(self.current_user_id);
        proof {
            assert(w@ =~= old(w)@ + self.serialized());
        }
    }
}

impl StaticDataSize for VersionControlInfo {
    open spec fn spec_static_size() -> nat {
        4
    }

    proof fn lemma_static_size(&self) {
    }

    fn static_data_size() -> (r: usize) {
        4
    }
}

impl DataSize for VersionControlInfo {
    fn data_size(&self) -> (r: usize) {
        4
    }
}

impl Parse for VersionControlInfo {
    open spec fn spec_size() -> nat {
        4
    }

    open spec fn spec_valid(s: Seq<u8>) -> bool {
        true
    }

    open spec fn spec_decode(s: Seq<u8>) -> VersionControlInfo {
        VersionControlInfo { day: s[0], month: s[1], last_user_id: s[2], current_user_id: s[3] }
    }

    proof fn lemma_encode_size(v: VersionControlInfo) {
    }

    proof fn lemma_round_trip(v: VersionControlInfo) {
    }

    proof fn lemma_bytes_round_trip(s: Seq<u8>) {
        assert(Self::spec_decode(s).serialized() =~= s);
    }

    fn parse(data: &[u8]) -> (r: Result<(&[u8], Self), ParseError>) {
        let (rest, day) = match single(data) {
            Ok(p) => p,
            Err(e) => {
                return Err(e);
            },
        };
        let (rest, month) = match single(rest) {
            Ok(p) => p,
            Err(e) => {
                return Err(e);
            },
        };
        let (rest, last_user_id) = match single(rest) {
            Ok(p) => p,
            Err(e) => {
                return Err(e);
            },
        };
        let (rest, current_user_id) = match single(rest) {
            Ok(p) => p,
            Err(e) => {
                return Err(e);
            },
        };
        let v = VersionControlInfo { day, month, last_user_id, current_user_id };
        proof {
            assert(rest@ =~= data@.skip(4));
        }
        Ok((rest, v))
    }
}

} // verus!

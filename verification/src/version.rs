//! The version handshake.
//!
//! Before any frame each side sends one 32-bit word: its major version in
//! the upper 16 bits, its minor version in the lower 16. Majors must agree;
//! the two sides then go on with the smaller of the two minors.

use vstd::prelude::*;

verus! {

/// The major version that this implementation speaks.
pub const MAJOR_VERSION: u16 = 1;

/// The highest minor version that this implementation speaks.
pub const MINOR_VERSION: u16 = 0;

/// The handshake failed: the peer speaks another major version.
#[derive(Clone, Copy, Debug, PartialEq, Eq, Structural)]
pub struct VersionMismatch {
    pub own_major: u16,
    pub peer_major: u16,
}

/// The major version in a handshake word.
pub open spec fn major_of(combined: u32) -> u16 {
    (combined / 0x1_0000) as u16
}

/// The minor version in a handshake word.
pub open spec fn minor_of(combined: u32) -> u16 {
    (combined % 0x1_0000) as u16
}

/// The handshake word for a version: `major` in the upper 16 bits, `minor`
/// in the lower.
pub fn merge_versions(major: u16, minor: u16) -> (combined: u32)
    ensures
        combined == major * 0x1_0000 + minor,
        major_of(combined) == major,
        minor_of(combined) == minor,
{
    (major as u32) * 0x1_0000 + (minor as u32)
}

/// The major and the minor version in a handshake word.
pub fn split_version(combined: u32) -> (version: (u16, u16))
    ensures
        version.0 == major_of(combined),
        version.1 == minor_of(combined),
        combined == version.0 * 0x1_0000 + version.1,
{
    ((combined / 0x1_0000) as u16, (combined % 0x1_0000) as u16)
}

/// The word that this implementation sends.
pub fn own_version() -> (combined: u32)
    ensures
        major_of(combined) == MAJOR_VERSION,
        minor_of(combined) == MINOR_VERSION,
{
    merge_versions(MAJOR_VERSION, MINOR_VERSION)
}

/// The minor version that two sides agree on after they exchanged the
/// words `own` and `peer`: the smaller of the two minors, if the majors are
/// the same.
pub open spec fn agreed(own: u32, peer: u32) -> Option<u16> {
    if major_of(own) != major_of(peer) {
        None
    } else if minor_of(own) <= minor_of(peer) {
        Some(minor_of(own))
    } else {
        Some(minor_of(peer))
    }
}

/// The minor version to go on with after the words `own` and `peer` were
/// exchanged, or the two major versions that differ.
pub fn negotiate(own: u32, peer: u32) -> (r: Result<u16, VersionMismatch>)
    ensures
        match r {
            Ok(minor) => agreed(own, peer) == Some(minor),
            Err(e) => agreed(own, peer) is None && e.own_major == major_of(own) && e.peer_major
                == major_of(peer),
        },
{
    let (own_major, own_minor) = split_version(own);
    let (peer_major, peer_minor) = split_version(peer);
    if own_major != peer_major {
        return Err(VersionMismatch { own_major, peer_major });
    }
    if own_minor <= peer_minor {
        Ok(own_minor)
    } else {
        Ok(peer_minor)
    }
}

/// Splitting a merged word gives the two versions back, and every word is
/// the merge of its two halves.
pub proof fn lemma_split_merge(major: u16, minor: u16, combined: u32)
    ensures
        major_of((major * 0x1_0000 + minor) as u32) == major,
        minor_of((major * 0x1_0000 + minor) as u32) == minor,
        combined == major_of(combined) * 0x1_0000 + minor_of(combined),
{
}

/// Both sides of a handshake come to the same result: it does not depend
/// on which of the two words is one's own.
pub proof fn lemma_negotiation_symmetric(a: u32, b: u32)
    ensures
        agreed(a, b) == agreed(b, a),
{
}

} // verus!

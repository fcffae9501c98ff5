//! Traits shared by the tags and playlists.
use vstd::prelude::*;

use crate::types::ProtocolVersion;

verus! {

/// The protocol compatibility version that a tag or a playlist needs.
pub trait RequiredVersion {
    /// Returns the protocol compatibility version that this tag requires.
    fn required_version(&self) -> ProtocolVersion;

    /// The protocol version, in which the tag has been introduced.
    fn introduced_version(&self) -> ProtocolVersion {
        self.required_version()
    }
}

} // verus!

//! The audio layer's volume categories.  Playback lives outside the library.

use vstd::prelude::*;

verus! {

/// Which volume a mixer command addresses.
#[derive(Debug, Clone, Copy, PartialEq, Eq, Structural)]
pub enum VolumeType {
    Master,
    Music,
    SFX,
}

} // verus!

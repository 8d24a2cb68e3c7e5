//! The one failure that opening a packet reports.

use vstd::prelude::*;

verus! {

/// The tag of a packet is not the tag of its bytes: the packet was damaged,
/// forged, sealed under another key or meant for another place in the
/// stream. Nothing of the packet is handed out, and the session is over.
#[derive(Clone, Copy, Debug, PartialEq, Eq, Structural)]
pub struct AuthenticationFailure;

} // verus!

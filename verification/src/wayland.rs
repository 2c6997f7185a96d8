//! Protocol version negotiation for the Wayland seat global.

use vstd::prelude::*;

verus! {

/// Lowest `wl_seat` version that can be bound: the pointer `frame` event is relied on.
pub const WL_SEAT_MIN_VERSION: u32 = 5;

/// Highest `wl_seat` version that is bound.
pub const WL_SEAT_MAX_VERSION: u32 = 9;

/// The version to bind, as a number: what the compositor offers, capped at the
/// highest version that is understood.
pub open spec fn seat_version_spec(offered: int) -> int {
    if offered > WL_SEAT_MAX_VERSION as int {
        WL_SEAT_MAX_VERSION as int
    } else {
        offered
    }
}

/// Picks the `wl_seat` version to bind for a compositor that offers `version`.
///
/// A compositor below the minimum cannot be used at all, so such a version is
/// not an input of this function.
pub fn wl_seat_version(version: u32) -> (bound: u32)
    requires
        version >= WL_SEAT_MIN_VERSION,
    ensures
        bound as int == seat_version_spec(version as int),
        WL_SEAT_MIN_VERSION <= bound <= WL_SEAT_MAX_VERSION,
        bound <= version,
{
    if version > WL_SEAT_MAX_VERSION {
        WL_SEAT_MAX_VERSION
    } else {
        version
    }
}

} // verus!

//! The refresh interval of an X11 display mode.

use vstd::arithmetic::div_mod::lemma_div_is_ordered;
use vstd::prelude::*;

verus! {

/// The interval that is assumed for a mode that does not say how fast it
/// refreshes, in microseconds.
pub const DEFAULT_REFRESH_MICROS: u64 = 16_000;

/// The time between two refreshes of a display mode, in microseconds: a
/// thousand million over the refresh rate in thousandths of a hertz, which
/// is the pixel clock over the pixels of a whole frame. A mode without a
/// pixel clock or without a frame size gets the default interval.
pub open spec fn refresh_micros(dot_clock: int, htotal: int, vtotal: int) -> int {
    if dot_clock == 0 || htotal == 0 || vtotal == 0 {
        DEFAULT_REFRESH_MICROS as int
    } else {
        1_000_000_000int / ((dot_clock * 1000) / (htotal * vtotal))
    }
}

/// Whether a mode refreshes at least once in a thousand seconds, so that its
/// rate in thousandths of a hertz is not zero.
pub open spec fn refresh_rate_is_known(dot_clock: int, htotal: int, vtotal: int) -> bool {
    dot_clock == 0 || htotal == 0 || vtotal == 0 || dot_clock * 1000 >= htotal * vtotal
}

/// The time between two refreshes of a display mode with the pixel clock
/// `dot_clock`, in hertz, and frames of `htotal` by `vtotal` pixels.
///
/// A mode whose rate would round down to nothing has no interval, and is not
/// an input of this function.
pub fn mode_refresh_rate(dot_clock: u32, htotal: u16, vtotal: u16) -> (micros: u64)
    requires
        refresh_rate_is_known(dot_clock as int, htotal as int, vtotal as int),
    ensures
        micros as int == refresh_micros(dot_clock as int, htotal as int, vtotal as int),
{
    if dot_clock == 0 || htotal == 0 || vtotal == 0 {
        return DEFAULT_REFRESH_MICROS;
    }
    let frame: u64 = htotal as u64 * vtotal as u64;
    assert(0 < frame) by (nonlinear_arith)
        requires
            frame == htotal as int * vtotal as int,
            htotal > 0,
            vtotal > 0,
    ;
    let millihertz: u64 = dot_clock as u64 * 1_000 / frame;
    proof {
        lemma_div_is_ordered(frame as int, dot_clock as int * 1000, frame as int);
        assert(frame as int / frame as int == 1) by (nonlinear_arith)
            requires
                frame > 0,
        ;
    }
    1_000_000_000 / millihertz
}

} // verus!

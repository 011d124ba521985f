//! Decisions of the render loop: when to stop, when to scroll, and what one
//! pass over the panel emits.
use vstd::prelude::*;
use crate::bus::BusOp;
use crate::frame::{next_cursor, window, Frame};
use crate::gpio::{sweep_ops, GPIO};
use crate::image::Image;
use crate::panel::DOUBLE_ROWS;

verus! {

/// Milliseconds between two scroll steps.
pub const SCROLL_INTERVAL_MILLIS: u64 = 10;

/// Whether the render loop still runs.
#[derive(Copy, Clone, Debug, PartialEq, Eq, Structural)]
pub enum RenderState {
    Running,
    Stopped,
}

/// The state after polling the interrupt flag: once stopped, the loop stays
/// stopped.
pub fn next_state(state: RenderState, interrupted: bool) -> (r: RenderState)
    ensures
        r == (if interrupted || state == RenderState::Stopped {
            RenderState::Stopped
        } else {
            RenderState::Running
        }),
{
    match state {
        RenderState::Stopped => RenderState::Stopped,
        RenderState::Running => if interrupted {
            RenderState::Stopped
        } else {
            RenderState::Running
        },
    }
}

/// Whether the frame scrolls one column now, `elapsed_millis` after the
/// last scroll step.
pub fn scroll_due(scrolling: bool, elapsed_millis: u64) -> (r: bool)
    ensures
        r == (scrolling && elapsed_millis >= SCROLL_INTERVAL_MILLIS),
{
    scrolling && elapsed_millis >= SCROLL_INTERVAL_MILLIS
}

/// One pass of the loop: appends a full sweep of `frame`, then, if a scroll
/// step is due, advances `frame` over `image`. Returns whether it scrolled.
pub fn render_pass(
    gpio: &GPIO,
    frame: &mut Frame,
    image: &Image,
    scrolling: bool,
    elapsed_millis: u64,
    ops: &mut Vec<BusOp>,
) -> (scrolled: bool)
    requires
        gpio.wf(),
        old(frame).wf(),
        image.can_feed_panel(),
    ensures
        scrolled == (scrolling && elapsed_millis >= SCROLL_INTERVAL_MILLIS),
        final(ops)@ == old(ops)@ + sweep_ops(
            old(frame).grid(),
            DOUBLE_ROWS as nat,
            gpio.address_mask(),
            gpio.timings(),
            gpio.slowdown_factor(),
        ),
        final(frame).wf(),
        scrolled ==> final(frame).grid() == window(
            image.grid(),
            image.width as nat,
            old(frame).cursor(),
        ),
        scrolled ==> final(frame).cursor() == next_cursor(old(frame).cursor(), image.width as nat),
        !scrolled ==> *final(frame) == *old(frame),
{
    gpio.sweep(frame, ops);
    let due = scroll_due(scrolling, elapsed_millis);
    if due {
        frame.next_image_frame(image);
    }
    due
}

} // verus!

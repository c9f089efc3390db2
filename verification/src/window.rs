//! The visibility controller for the UI surface, and the window styles the
//! host opens surfaces with.
//!
//! Hiding arms a deferred reset: if the surface is still hidden when the
//! grace period ends, the navigation stack goes back to its root. The task
//! re-checks the state on wake, so a surface shown again in the meantime is
//! left alone.

use vstd::prelude::*;

verus! {

/// Width of the main surface, in pixels.
pub const WIDTH: u32 = 800;

/// Height of the main surface, in pixels.
pub const HEIGHT: u32 = 450;

/// How long a hidden surface keeps its stack before the deferred reset, in
/// milliseconds.
pub const HIDDEN_RESET_GRACE_MS: u64 = 90000;

/// The kinds of surface the host can open.
#[derive(Clone, Copy, PartialEq, Eq, Structural, Debug)]
pub enum LWindowStyle {
    Main,
    Toast { width: u32, height: u32 },
    Settings,
}

impl LWindowStyle {
    /// The style of a floating toast surface sized for a message of
    /// `message_len` characters.
    pub fn toast_for_message(message_len: usize) -> (s: LWindowStyle)
        requires
            message_len * 12 <= u32::MAX,
        ensures
            s == (LWindowStyle::Toast { width: (message_len * 12) as u32, height: 50u32 }),
    {
        LWindowStyle::Toast { width: (message_len as u32) * 12, height: 50 }
    }
}

/// Whether the UI surface is shown or hidden. `open` and `close` are the
/// idempotent forms of the two directions of `toggle`.
#[derive(Debug)]
pub struct LWindow {
    pub hidden: bool,
}

impl LWindow {
    /// The surface starts shown.
    pub fn init() -> (w: LWindow)
        ensures
            !w.hidden,
    {
        LWindow { hidden: false }
    }

    pub fn is_open(&self) -> (r: bool)
        ensures
            r == !self.hidden,
    {
        !self.hidden
    }

    /// Shows the surface; showing a shown surface changes nothing.
    pub fn open(&mut self)
        ensures
            !final(self).hidden,
    {
        self.hidden = false;
    }

    /// Hides the surface; hiding a hidden surface changes nothing. Every
    /// call is followed by arming the deferred stack reset.
    pub fn close(&mut self)
        ensures
            final(self).hidden,
    {
        self.hidden = true;
    }

    /// Flips between shown and hidden.
    pub fn toggle(&mut self)
        ensures
            final(self).hidden == !old(self).hidden,
    {
        self.hidden = !self.hidden;
    }
}

} // verus!

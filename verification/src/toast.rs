//! Toast notifications: a small timed state machine, one per action set.
//!
//! A new notification always preempts the current one. `success` and `error`
//! carry an expiry instant; the deferred task armed for that instant calls
//! [`Toast::expire`] with the instant it was armed for, which re-checks the
//! state before acting, so a stale task fired into a newer state is harmless.
//! `loading` never expires on its own.

use vstd::prelude::*;

verus! {

/// How long a success toast stays up, in milliseconds.
pub const SUCCESS_TOAST_MS: u64 = 3000;

/// How long an error toast stays up, in milliseconds.
pub const ERROR_TOAST_MS: u64 = 4000;

/// The notification shown over the active view, if any.
#[derive(Debug)]
pub enum ToastState {
    Success { message: String, fade_in: u64, fade_out: Option<u64> },
    Error { message: String, fade_in: u64, fade_out: Option<u64> },
    Loading { message: String, fade_in: u64, fade_out: Option<u64> },
    Idle,
}

/// The mathematical value of a toast state.
pub ghost enum ToastView {
    Success { message: Seq<char>, fade_in: u64, fade_out: Option<u64> },
    Error { message: Seq<char>, fade_in: u64, fade_out: Option<u64> },
    Loading { message: Seq<char>, fade_in: u64, fade_out: Option<u64> },
    Idle,
}

impl View for ToastState {
    type V = ToastView;

    open spec fn view(&self) -> ToastView {
        match self {
            ToastState::Success { message, fade_in, fade_out } => ToastView::Success {
                message: message@,
                fade_in: *fade_in,
                fade_out: *fade_out,
            },
            ToastState::Error { message, fade_in, fade_out } => ToastView::Error {
                message: message@,
                fade_in: *fade_in,
                fade_out: *fade_out,
            },
            ToastState::Loading { message, fade_in, fade_out } => ToastView::Loading {
                message: message@,
                fade_in: *fade_in,
                fade_out: *fade_out,
            },
            ToastState::Idle => ToastView::Idle,
        }
    }
}

/// What a deferred expiry task does on wake: if the state still carries the
/// expiry instant the task was armed for, it goes `Idle`; anything newer is
/// left alone.
pub open spec fn spec_expire(t: ToastView, armed: u64) -> ToastView {
    match t {
        ToastView::Success { fade_out, .. } => if fade_out == Some(armed) {
            ToastView::Idle
        } else {
            t
        },
        ToastView::Error { fade_out, .. } => if fade_out == Some(armed) {
            ToastView::Idle
        } else {
            t
        },
        _ => t,
    }
}

/// The toast slot owned by one action set.
#[derive(Debug)]
pub struct Toast {
    pub state: ToastState,
}

impl View for Toast {
    type V = ToastView;

    open spec fn view(&self) -> ToastView {
        self.state@
    }
}

impl Toast {
    pub fn init() -> (t: Toast)
        ensures
            t@ is Idle,
    {
        Toast { state: ToastState::Idle }
    }

    /// Replaces whatever is showing; a loading toast never expires by itself.
    pub fn loading(&mut self, message: &str, now_ms: u64)
        ensures
            final(self)@ == (ToastView::Loading {
                message: message@,
                fade_in: now_ms,
                fade_out: None,
            }),
    {
        self.state = ToastState::Loading {
            message: String::from_str(message),
            fade_in: now_ms,
            fade_out: None,
        };
    }

    /// Replaces whatever is showing and arms an expiry at `now_ms + SUCCESS_TOAST_MS`.
    pub fn success(&mut self, message: &str, now_ms: u64)
        requires
            now_ms + SUCCESS_TOAST_MS <= u64::MAX,
        ensures
            final(self)@ == (ToastView::Success {
                message: message@,
                fade_in: now_ms,
                fade_out: Some((now_ms + SUCCESS_TOAST_MS) as u64),
            }),
    {
        self.state = ToastState::Success {
            message: String::from_str(message),
            fade_in: now_ms,
            fade_out: Some(now_ms + SUCCESS_TOAST_MS),
        };
    }

    /// Replaces whatever is showing and arms an expiry at `now_ms + ERROR_TOAST_MS`.
    pub fn error(&mut self, message: &str, now_ms: u64)
        requires
            now_ms + ERROR_TOAST_MS <= u64::MAX,
        ensures
            final(self)@ == (ToastView::Error {
                message: message@,
                fade_in: now_ms,
                fade_out: Some((now_ms + ERROR_TOAST_MS) as u64),
            }),
    {
        self.state = ToastState::Error {
            message: String::from_str(message),
            fade_in: now_ms,
            fade_out: Some(now_ms + ERROR_TOAST_MS),
        };
    }

    /// The deferred expiry task's wake-up: `armed` is the expiry instant the
    /// task was armed for when the toast was set.
    pub fn expire(&mut self, armed: u64)
        ensures
            final(self)@ == spec_expire(old(self)@, armed),
    {
        let clear = match &self.state {
            ToastState::Success { fade_out, .. } => match fade_out {
                Some(f) => *f == armed,
                None => false,
            },
            ToastState::Error { fade_out, .. } => match fade_out {
                Some(f) => *f == armed,
                None => false,
            },
            _ => false,
        };
        if clear {
            self.state = ToastState::Idle;
        }
    }
}

/// A success toast left untouched goes `Idle` when its own expiry task fires.
pub proof fn lemma_untouched_success_expires(t: ToastView, set_at: u64)
    requires
        t matches ToastView::Success { fade_out, .. } && fade_out == Some(
            (set_at + SUCCESS_TOAST_MS) as u64,
        ),
        set_at + SUCCESS_TOAST_MS <= u64::MAX,
    ensures
        spec_expire(t, (set_at + SUCCESS_TOAST_MS) as u64) is Idle,
{
}

/// A success toast overwritten by an error before its expiry never shows
/// `Idle` when the stale success task fires: the error's own expiry lies
/// strictly later than the instant the stale task was armed for.
pub proof fn lemma_preempting_error_survives_stale_expiry(t: ToastView, set_at: u64, error_at: u64)
    requires
        t matches ToastView::Error { fade_out, .. } && fade_out == Some(
            (error_at + ERROR_TOAST_MS) as u64,
        ),
        set_at <= error_at,
        error_at + ERROR_TOAST_MS <= u64::MAX,
    ensures
        spec_expire(t, (set_at + SUCCESS_TOAST_MS) as u64) == t,
        spec_expire(t, (set_at + SUCCESS_TOAST_MS) as u64) !is Idle,
{
}

} // verus!

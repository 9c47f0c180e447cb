//! Shared retry/backoff and config-fingerprint logic.
//!
//! Used by both the aloop state machine and the ioplug controller loop so that
//! the two backends implement identical recovery semantics.
use crate::core_logic::time::{
    duration_from_millis, instant_after_millis, instant_reached, millis_duration,
};
use crate::text::copy_string;
use std::time::{Duration, Instant};
use vstd::prelude::*;

verus! {

/// Why the most recent start attempt was rejected.
#[derive(Clone, Copy, Debug, Eq, PartialEq, Structural)]
pub enum RejectionReason {
    Config,
    PlaybackDevice,
    Internal,
}

/// Exponential-backoff state for CamillaDSP restart attempts.
///
/// `latch_until_change` is set for permanent errors (e.g. config validation
/// failures) where retrying without a config change would be pointless.
/// It is cleared when the config file fingerprint changes.
pub struct RetryState {
    /// How many start attempts have been made since the last reset.
    pub consecutive: u32,
    /// Earliest time the next attempt may be made.
    next_at: Option<Instant>,
    /// Permanent failure latch — cleared by a config file change.
    pub latch_until_change: bool,
    last_rejection_reason: Option<RejectionReason>,
}

/// The abstract state of a [`RetryState`].
pub struct RetryView {
    /// Start attempts since the last reset.
    pub consecutive: nat,
    /// Whether a backoff window has been scheduled.
    pub scheduled: bool,
    /// The permanent latch.
    pub latched: bool,
    /// The reason behind the last rejection, when one is remembered.
    pub reason: Option<RejectionReason>,
}

impl View for RetryState {
    type V = RetryView;

    closed spec fn view(&self) -> RetryView {
        RetryView {
            consecutive: self.consecutive as nat,
            scheduled: self.next_at is Some,
            latched: self.latch_until_change,
            reason: self.last_rejection_reason,
        }
    }
}

/// Backoff delay, in milliseconds, after the attempt with 0-based index `i`:
/// 500 ms → 1 s → 2 s → 5 s → 10 s → 30 s, then 30 s for every later attempt.
pub open spec fn retry_delay_ms(i: nat) -> u64 {
    if i == 0 {
        500
    } else if i == 1 {
        1000
    } else if i == 2 {
        2000
    } else if i == 3 {
        5000
    } else if i == 4 {
        10_000
    } else {
        30_000
    }
}

/// The backoff never shrinks from one attempt to a later one, and never
/// exceeds its 30 s cap.
pub proof fn law_backoff_grows_to_its_cap(i: nat, j: nat)
    requires
        i <= j,
    ensures
        retry_delay_ms(i) <= retry_delay_ms(j) <= 30_000,
        j >= 5 ==> retry_delay_ms(j) == 30_000,
{
}

/// The fresh state: no attempts, no backoff, no latch, no reason.
pub open spec fn fresh_retry() -> RetryView {
    RetryView { consecutive: 0, scheduled: false, latched: false, reason: None }
}

fn delay_for_attempt(i: u32) -> (ms: u64)
    ensures
        ms == retry_delay_ms(i as nat),
{
    if i == 0 {
        500
    } else if i == 1 {
        1000
    } else if i == 2 {
        2000
    } else if i == 3 {
        5000
    } else if i == 4 {
        10_000
    } else {
        30_000
    }
}

impl RetryState {
    /// Number of attempts since the last reset.
    pub fn attempts(&self) -> (n: u32)
        ensures
            n as nat == self@.consecutive,
    {
        self.consecutive
    }

    /// Whether the permanent latch is set.
    pub fn is_latched(&self) -> (b: bool)
        ensures
            b == self@.latched,
    {
        self.latch_until_change
    }

    pub fn new() -> (r: Self)
        ensures
            r@ == fresh_retry(),
    {
        Self { consecutive: 0, next_at: None, latch_until_change: false, last_rejection_reason: None }
    }

    /// Clear the backoff counter and window. A reason behind a still-active
    /// permanent latch is kept; any other remembered reason is forgotten.
    pub fn reset_backoff(&mut self)
        ensures
            final(self)@.consecutive == 0,
            !final(self)@.scheduled,
            final(self)@.latched == old(self)@.latched,
            final(self)@.reason == if old(self)@.latched {
                old(self)@.reason
            } else {
                None
            },
    {
        self.consecutive = 0;
        self.next_at = None;
        if !self.latch_until_change {
            self.last_rejection_reason = None;
        }
    }

    /// Clear the permanent latch. The reason is forgotten unless a backoff
    /// window is still scheduled.
    pub fn clear_latch(&mut self)
        ensures
            final(self)@.consecutive == old(self)@.consecutive,
            final(self)@.scheduled == old(self)@.scheduled,
            !final(self)@.latched,
            final(self)@.reason == if old(self)@.scheduled {
                old(self)@.reason
            } else {
                None
            },
    {
        self.latch_until_change = false;
        if self.next_at.is_none() {
            self.last_rejection_reason = None;
        }
    }

    /// Return to the fresh state: backoff cleared and latch cleared.
    pub fn reset(&mut self)
        ensures
            final(self)@ == fresh_retry(),
    {
        self.reset_backoff();
        self.clear_latch();
    }

    /// Returns `true` if enough time has elapsed since the last attempt and
    /// the permanent latch is not set.
    pub fn should_attempt(&self) -> (b: bool)
        ensures
            self@.latched ==> !b,
            !self@.latched && !self@.scheduled ==> b,
    {
        if self.latch_until_change {
            return false;
        }
        match &self.next_at {
            Some(t) => instant_reached(t),
            None => true,
        }
    }

    /// Record a start attempt, setting the next backoff window.
    ///
    /// Backoff sequence: 500 ms → 1 s → 2 s → 5 s → 10 s → 30 s (cap).
    pub fn record_attempt(&mut self)
        requires
            old(self)@.consecutive < u32::MAX,
        ensures
            final(self)@ == (RetryView {
                consecutive: old(self)@.consecutive + 1,
                scheduled: true,
                latched: old(self)@.latched,
                reason: Some(RejectionReason::Internal),
            }),
    {
        self.record_attempt_with_reason(RejectionReason::Internal);
    }

    /// Record a start attempt that was rejected for `reason`.
    pub fn record_attempt_with_reason(&mut self, reason: RejectionReason)
        requires
            old(self)@.consecutive < u32::MAX,
        ensures
            final(self)@ == (RetryView {
                consecutive: old(self)@.consecutive + 1,
                scheduled: true,
                latched: old(self)@.latched,
                reason: Some(reason),
            }),
    {
        let delay = delay_for_attempt(self.consecutive);
        self.next_at = Some(instant_after_millis(delay));
        self.consecutive = self.consecutive + 1;
        self.last_rejection_reason = Some(reason);
    }

    /// Milliseconds scheduled by the most recent `record_attempt` call.
    pub fn scheduled_delay_ms(&self) -> (r: Option<u64>)
        ensures
            r == if self@.consecutive == 0 {
                None
            } else {
                Some(retry_delay_ms((self@.consecutive - 1) as nat))
            },
    {
        if self.consecutive == 0 {
            None
        } else {
            Some(delay_for_attempt(self.consecutive - 1))
        }
    }

    /// Duration scheduled by the most recent `record_attempt` call.
    pub fn scheduled_delay(&self) -> (r: Option<Duration>)
        ensures
            r == if self@.consecutive == 0 {
                None
            } else {
                Some(millis_duration(retry_delay_ms((self@.consecutive - 1) as nat)))
            },
    {
        match self.scheduled_delay_ms() {
            Some(ms) => Some(duration_from_millis(ms)),
            None => None,
        }
    }

    /// Mark a permanent error; no further attempts until the latch clears.
    pub fn latch(&mut self)
        ensures
            final(self)@ == (RetryView {
                latched: true,
                reason: Some(RejectionReason::Internal),
                ..old(self)@
            }),
    {
        self.latch_with_reason(RejectionReason::Internal);
    }

    /// Mark a permanent error caused by `reason`.
    pub fn latch_with_reason(&mut self, reason: RejectionReason)
        ensures
            final(self)@ == (RetryView { latched: true, reason: Some(reason), ..old(self)@ }),
    {
        self.latch_until_change = true;
        self.last_rejection_reason = Some(reason);
    }

    /// The reason behind the last rejection (`Internal` when none is remembered).
    pub fn rejection_reason(&self) -> (r: RejectionReason)
        ensures
            r == match self@.reason {
                Some(x) => x,
                None => RejectionReason::Internal,
            },
    {
        match self.last_rejection_reason {
            Some(r) => r,
            None => RejectionReason::Internal,
        }
    }
}

impl Default for RetryState {
    fn default() -> (r: Self)
        ensures
            r@ == fresh_retry(),
    {
        Self::new()
    }
}

// ─── Config fingerprint ────────────────────────────────────────────────────

/// Lightweight fingerprint for detecting active config file changes without
/// polling the entire YAML content.
///
/// Tracks the canonicalized symlink target, the target file's mtime/size and
/// inode, the same of the path itself, and the symlink's own target.
/// Modification times are nanoseconds relative to the Unix epoch.
#[derive(Debug, Eq, PartialEq)]
pub struct ConfigFingerprint {
    pub target: String,
    pub target_modified: Option<i128>,
    pub target_size: u64,
    pub target_ino: u64,
    pub path_modified: Option<i128>,
    pub path_size: u64,
    pub path_ino: u64,
    pub symlink_target: Option<String>,
}

/// The view of an optional string.
pub open spec fn opt_str_view(s: Option<String>) -> Option<Seq<char>> {
    match s {
        Some(v) => Some(v@),
        None => None,
    }
}

/// The mathematical value of a [`ConfigFingerprint`].
pub struct FingerprintView {
    pub target: Seq<char>,
    pub target_modified: Option<i128>,
    pub target_size: u64,
    pub target_ino: u64,
    pub path_modified: Option<i128>,
    pub path_size: u64,
    pub path_ino: u64,
    pub symlink_target: Option<Seq<char>>,
}

impl View for ConfigFingerprint {
    type V = FingerprintView;

    open spec fn view(&self) -> FingerprintView {
        FingerprintView {
            target: self.target@,
            target_modified: self.target_modified,
            target_size: self.target_size,
            target_ino: self.target_ino,
            path_modified: self.path_modified,
            path_size: self.path_size,
            path_ino: self.path_ino,
            symlink_target: opt_str_view(self.symlink_target),
        }
    }
}

impl ConfigFingerprint {
    /// Return a fingerprint that compares not-equal to any real file.
    pub fn absent() -> (f: Self)
        ensures
            f@ == (FingerprintView {
                target: Seq::empty(),
                target_modified: None,
                target_size: 0,
                target_ino: 0,
                path_modified: None,
                path_size: 0,
                path_ino: 0,
                symlink_target: None,
            }),
    {
        Self {
            target: String::new(),
            target_modified: None,
            target_size: 0,
            target_ino: 0,
            path_modified: None,
            path_size: 0,
            path_ino: 0,
            symlink_target: None,
        }
    }

    /// Whether two fingerprints record the same file state.
    pub fn same_as(&self, other: &ConfigFingerprint) -> (b: bool)
        ensures
            b == (self@ == other@),
    {
        let symlink_same = match (&self.symlink_target, &other.symlink_target) {
            (Some(a), Some(b)) => crate::text::str_eq(a.as_str(), b.as_str()),
            (None, None) => true,
            _ => false,
        };
        crate::text::str_eq(self.target.as_str(), other.target.as_str())
            && self.target_modified == other.target_modified && self.target_size
            == other.target_size && self.target_ino == other.target_ino && self.path_modified
            == other.path_modified && self.path_size == other.path_size && self.path_ino
            == other.path_ino && symlink_same
    }

    /// A field-by-field copy.
    pub fn duplicate(&self) -> (f: Self)
        ensures
            f@ == self@,
    {
        Self {
            target: copy_string(&self.target),
            target_modified: self.target_modified,
            target_size: self.target_size,
            target_ino: self.target_ino,
            path_modified: self.path_modified,
            path_size: self.path_size,
            path_ino: self.path_ino,
            symlink_target: crate::text::copy_opt_string(&self.symlink_target),
        }
    }
}

} // verus!

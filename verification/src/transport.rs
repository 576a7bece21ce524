//! The transport: the global sample clock and its loop region.

use vstd::prelude::*;

verus! {

/// Whether the transport is rolling.
#[derive(Debug, Clone, Copy, PartialEq, Eq, Structural)]
pub enum TransportPlaybackState {
    Stopped,
    Playing,
    Paused,
}

/// The global sample clock with an optional loop region `[start, end)`.
#[derive(Debug, Clone, Copy)]
pub struct TransportPosition {
    pub sample_count: u64,
    pub playback_state: TransportPlaybackState,
    pub loop_start_samples: u64,
    pub loop_end_samples: u64,
    pub loop_enabled: bool,
}

/// Whether a loop region is enabled and non-empty.
pub open spec fn valid_loop(t: TransportPosition) -> bool {
    t.loop_enabled && t.loop_end_samples > t.loop_start_samples
}

/// Where the clock lands for a position `pos`: with a valid loop, a position
/// at or past the loop end is folded back into `[start, end)`; anything else
/// is left as it is.
pub open spec fn wrapped(t: TransportPosition, pos: int) -> int {
    if valid_loop(t) && pos >= t.loop_end_samples {
        t.loop_start_samples + (pos - t.loop_start_samples) % (t.loop_end_samples - t.loop_start_samples)
    } else {
        pos
    }
}

/// A stopped transport at sample 0 with no loop.
pub open spec fn initial_transport() -> TransportPosition {
    TransportPosition {
        sample_count: 0,
        playback_state: TransportPlaybackState::Stopped,
        loop_start_samples: 0,
        loop_end_samples: 0,
        loop_enabled: false,
    }
}

impl TransportPosition {
    /// A stopped transport at sample 0 with no loop.
    pub fn new() -> (t: Self)
        ensures
            t == initial_transport(),
    {
        TransportPosition {
            sample_count: 0,
            playback_state: TransportPlaybackState::Stopped,
            loop_start_samples: 0,
            loop_end_samples: 0,
            loop_enabled: false,
        }
    }

    pub fn has_valid_loop(&self) -> (b: bool)
        ensures
            b == valid_loop(*self),
    {
        self.loop_enabled && self.loop_end_samples > self.loop_start_samples
    }

    /// Folds a position into the loop region (see [`wrapped`]).
    pub fn wrap_sample_count(&self, pos: u64) -> (r: u64)
        ensures
            r == wrapped(*self, pos as int),
            valid_loop(*self) && pos >= self.loop_start_samples ==> self.loop_start_samples <= r
                < self.loop_end_samples || r == pos < self.loop_end_samples,
    {
        if self.has_valid_loop() && pos >= self.loop_end_samples {
            let len = self.loop_end_samples - self.loop_start_samples;
            proof {
                vstd::arithmetic::div_mod::lemma_mod_pos_bound(
                    (pos - self.loop_start_samples) as int,
                    len as int,
                );
            }
            self.loop_start_samples + (pos - self.loop_start_samples) % len
        } else {
            pos
        }
    }

    pub fn set_loop_region_samples(&mut self, start: u64, end: u64)
        ensures
            *final(self) == (TransportPosition {
                loop_start_samples: start,
                loop_end_samples: end,
                ..*old(self)
            }),
    {
        self.loop_start_samples = start;
        self.loop_end_samples = end;
    }

    pub fn set_loop_enabled(&mut self, enabled: bool)
        ensures
            *final(self) == (TransportPosition { loop_enabled: enabled, ..*old(self) }),
    {
        self.loop_enabled = enabled;
    }
}

/// With a valid loop, a clock standing inside the loop region stays inside
/// it however far it is advanced.
pub proof fn law_loop_keeps_clock_inside(t: TransportPosition, advance: nat)
    requires
        valid_loop(t),
        t.loop_start_samples <= t.sample_count < t.loop_end_samples,
    ensures
        t.loop_start_samples <= wrapped(t, t.sample_count + advance) < t.loop_end_samples,
{
    let p = t.sample_count + advance;
    if p >= t.loop_end_samples {
        vstd::arithmetic::div_mod::lemma_mod_pos_bound(
            p - t.loop_start_samples,
            t.loop_end_samples - t.loop_start_samples,
        );
    }
}

/// Without a valid loop the clock is never folded back.
pub proof fn law_no_loop_no_wrap(t: TransportPosition, pos: int)
    requires
        !valid_loop(t),
    ensures
        wrapped(t, pos) == pos,
{
}

/// Folding a position into the loop keeps its phase within the loop.
pub proof fn law_wrap_keeps_phase(t: TransportPosition, pos: int)
    requires
        valid_loop(t),
        pos >= t.loop_start_samples,
    ensures
        (wrapped(t, pos) - t.loop_start_samples) % (t.loop_end_samples - t.loop_start_samples) == (pos
            - t.loop_start_samples) % (t.loop_end_samples - t.loop_start_samples),
{
    let len = t.loop_end_samples - t.loop_start_samples;
    if pos >= t.loop_end_samples {
        let r = (pos - t.loop_start_samples) % len;
        vstd::arithmetic::div_mod::lemma_mod_pos_bound(pos - t.loop_start_samples, len);
        vstd::arithmetic::div_mod::lemma_small_mod(r as nat, len as nat);
    }
}

} // verus!

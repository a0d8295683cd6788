//! Playback state and timing for the audio browser.
//!
//! Audio decoding and output live outside this core; what is tracked here is
//! which track plays and how much of it has elapsed, with every clock
//! reading passed in explicitly as milliseconds.

use vstd::prelude::*;

use crate::node::sat_dur;

verus! {

/// Playback state shared with the player.
#[derive(Debug, Clone)]
pub enum PlaybackState {
    Stopped,
    /// The named file is playing
    Playing(String),
    /// The named file is paused
    Paused(String),
}

/// Timing of the current track: when it started, how long it has spent
/// paused, and when the present pause began, if one is running.
#[derive(Debug, Clone)]
pub struct PlaybackTiming {
    /// Total duration of the track in milliseconds, when known
    pub total_duration_ms: Option<u64>,
    /// When playback started
    pub start_time: u64,
    /// Accumulated pause time
    pub paused_ms: u64,
    /// When the running pause started, if paused
    pub pause_start: Option<u64>,
}

/// Milliseconds of the track actually played by `now`: the wall time since
/// the start, less every finished pause and the running one, never negative.
pub open spec fn elapsed_at(t: PlaybackTiming, now: u64) -> int {
    let raw = sat_dur(now, t.start_time);
    let pausing = match t.pause_start {
        Some(p) => sat_dur(now, p),
        None => 0int,
    };
    if raw >= t.paused_ms + pausing {
        raw - t.paused_ms - pausing
    } else {
        0int
    }
}

impl PlaybackTiming {
    /// Timing for a track that starts now.
    pub fn new(total_duration_ms: Option<u64>, now: u64) -> (r: Self)
        ensures
            r.total_duration_ms == total_duration_ms,
            r.start_time == now,
            r.paused_ms == 0,
            r.pause_start is None,
    {
        PlaybackTiming { total_duration_ms, start_time: now, paused_ms: 0, pause_start: None }
    }

    /// Milliseconds of the track played by `now`.
    pub fn elapsed(&self, now: u64) -> (r: u64)
        ensures
            r == elapsed_at(*self, now),
    {
        let raw = crate::node::ms_since(now, self.start_time);
        let pausing = match self.pause_start {
            Some(p) => crate::node::ms_since(now, p),
            None => 0,
        };
        if self.paused_ms <= u64::MAX - pausing && raw >= self.paused_ms + pausing {
            raw - self.paused_ms - pausing
        } else {
            proof {
                assert(self.paused_ms > u64::MAX - pausing ==> self.paused_ms + pausing > raw);
            }
            0
        }
    }

    /// Milliseconds of the track still to play by `now`, when its length is
    /// known.
    pub fn remaining(&self, now: u64) -> (r: Option<u64>)
        ensures
            match r {
                Some(v) => self.total_duration_ms matches Some(total) && v == (
                if total >= elapsed_at(*self, now) {
                    total - elapsed_at(*self, now)
                } else {
                    0int
                }),
                None => self.total_duration_ms is None,
            },
    {
        match self.total_duration_ms {
            Some(total) => {
                let e = self.elapsed(now);
                if total >= e {
                    Some(total - e)
                } else {
                    Some(0)
                }
            }
            None => None,
        }
    }

    /// Start a pause now; a pause already running is left as it is.
    pub fn pause(&mut self, now: u64)
        ensures
            final(self).total_duration_ms == old(self).total_duration_ms,
            final(self).start_time == old(self).start_time,
            final(self).paused_ms == old(self).paused_ms,
            final(self).pause_start == (match old(self).pause_start {
                Some(p) => Some(p),
                None => Some(now),
            }),
    {
        match self.pause_start {
            Some(_) => {}
            None => {
                self.pause_start = Some(now);
            }
        }
    }

    /// End the running pause now, banking its length; without a running
    /// pause nothing changes.
    pub fn resume(&mut self, now: u64)
        ensures
            final(self).total_duration_ms == old(self).total_duration_ms,
            final(self).start_time == old(self).start_time,
            final(self).pause_start is None,
            match old(self).pause_start {
                Some(p) => final(self).paused_ms == (if old(self).paused_ms + sat_dur(now, p)
                    <= u64::MAX {
                    old(self).paused_ms + sat_dur(now, p)
                } else {
                    u64::MAX as int
                }),
                None => final(self).paused_ms == old(self).paused_ms,
            },
    {
        match self.pause_start {
            Some(p) => {
                let d = crate::node::ms_since(now, p);
                if self.paused_ms <= u64::MAX - d {
                    self.paused_ms = self.paused_ms + d;
                } else {
                    self.paused_ms = u64::MAX;
                }
                self.pause_start = None;
            }
            None => {}
        }
    }
}

} // verus!

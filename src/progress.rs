//! Progress accounting: bytes seen against a known or unknown total.
use vstd::prelude::*;

verus! {

/// Width of the progress bar in cells.
pub const BAR_WIDTH: u64 = 40;

/// Bytes expected (0: unknown) and bytes seen so far. Callers that share one
/// across tasks hold it under a lock, for each increment and the redraw after it.
pub struct ProgressBar {
    pub total: u64,
    pub current: u64,
}

/// What one redraw of the bar shows.
#[derive(Clone, Copy, Debug, PartialEq, Eq, Structural)]
pub struct Frame {
    /// Filled cells, at most `BAR_WIDTH`.
    pub filled: u64,
    /// Empty cells; `filled + empty == BAR_WIDTH`.
    pub empty: u64,
    /// Share of the total seen, in hundredths of a percent.
    pub hundredths: u128,
}

/// The frame for `current` bytes of `total`, none while the total is unknown.
pub open spec fn frame_spec(total: u64, current: u64) -> Option<Frame> {
    if total == 0 {
        None
    } else {
        let f = current as int * BAR_WIDTH as int / total as int;
        let filled = if f > BAR_WIDTH { BAR_WIDTH as int } else { f };
        Some(Frame {
            filled: filled as u64,
            empty: (BAR_WIDTH - filled) as u64,
            hundredths: (current as int * 10000 / total as int) as u128,
        })
    }
}

impl ProgressBar {
    /// A tracker with nothing seen yet.
    pub fn new(total: u64) -> (s: ProgressBar)
        ensures
            s.total == total,
            s.current == 0,
    {
        ProgressBar { total, current: 0 }
    }

    /// Counts `amount` more bytes; the count never decreases and stops at the
    /// largest `u64`.
    pub fn inc(&mut self, amount: u64)
        ensures
            final(self).total == old(self).total,
            final(self).current == (if old(self).current + amount > u64::MAX {
                u64::MAX as int
            } else {
                old(self).current + amount
            }),
            final(self).current >= old(self).current,
    {
        self.current = self.current.saturating_add(amount);
    }

    /// What to draw now: nothing while the total is unknown.
    pub fn frame(&self) -> (r: Option<Frame>)
        ensures
            r == frame_spec(self.total, self.current),
    {
        if self.total == 0 {
            return None;
        }
        let cur = self.current as u128;
        let total = self.total as u128;
        assert(cur * 40 <= u64::MAX as int * 40) by (nonlinear_arith)
            requires
                cur <= u64::MAX,
        ;
        assert(cur * 10000 <= u64::MAX as int * 10000) by (nonlinear_arith)
            requires
                cur <= u64::MAX,
        ;
        let f = cur * 40 / total;
        let filled: u64 = if f > 40 { 40 } else { f as u64 };
        let hundredths = cur * 10000 / total;
        Some(Frame { filled, empty: 40 - filled, hundredths })
    }
}

/// A tracker for `total` expected bytes (0: unknown).
pub fn progress_bar(total: u64) -> (s: ProgressBar)
    ensures
        s.total == total,
        s.current == 0,
{
    ProgressBar::new(total)
}

} // verus!

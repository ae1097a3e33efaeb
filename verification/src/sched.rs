use vstd::prelude::*;
use crate::segment::SegmentOutcome;

verus! {

/// The action the dispatch loop must take next.
#[derive(Clone, Copy, Debug, PartialEq, Eq, Structural)]
pub enum DispatchStep {
    /// Start fetching the segment with this ordinal.
    Dispatch(usize),
    /// The concurrency bound is reached: wait for a completion.
    Wait,
    /// The scheduling window closed: dispatch no further segment, only
    /// await those in flight.
    Stopped,
    /// Every segment has been dispatched.
    Done,
}

/// The bookkeeping of bounded-concurrency dispatch: at most `limit`
/// segment fetches are in flight at once, segments go out in ordinal
/// order, and a closed window stops dispatch permanently.
#[derive(Debug)]
pub struct Scheduler {
    pub limit: usize,
    pub active: usize,
    pub next_ordinal: usize,
    pub total: usize,
    pub stopped: bool,
}

impl Scheduler {
    /// The bound that holds in every reachable state: never more than
    /// `limit` fetches in flight, never an ordinal beyond the total.
    pub open spec fn wf(&self) -> bool {
        self.active <= self.limit && self.next_ordinal <= self.total
    }

    pub fn new(limit: usize, total: usize) -> (r: Scheduler)
        requires
            limit >= 1,
        ensures
            r.wf(),
            r.limit == limit,
            r.total == total,
            r.active == 0,
            r.next_ordinal == 0,
            !r.stopped,
    {
        Scheduler { limit, active: 0, next_ordinal: 0, total, stopped: false }
    }

    /// One dispatch decision. A closed window stops the scheduler for
    /// good; otherwise the next ordinal goes out exactly when the bound
    /// leaves room, and the in-flight count never exceeds the bound.
    pub fn try_dispatch(&mut self, window_open: bool) -> (r: DispatchStep)
        requires
            old(self).wf(),
        ensures
            final(self).wf(),
            final(self).limit == old(self).limit,
            final(self).total == old(self).total,
            final(self).active <= final(self).limit,
            r == if !window_open || old(self).stopped {
                DispatchStep::Stopped
            } else if old(self).next_ordinal == old(self).total {
                DispatchStep::Done
            } else if old(self).active < old(self).limit {
                DispatchStep::Dispatch(old(self).next_ordinal)
            } else {
                DispatchStep::Wait
            },
            (!window_open || old(self).stopped) ==> *final(self) == (Scheduler {
                stopped: true,
                ..*old(self)
            }),
            (window_open && !old(self).stopped && old(self).next_ordinal != old(self).total
                && old(self).active < old(self).limit) ==> *final(self) == (Scheduler {
                active: (old(self).active + 1) as usize,
                next_ordinal: (old(self).next_ordinal + 1) as usize,
                ..*old(self)
            }),
            (window_open && !old(self).stopped && (old(self).next_ordinal == old(self).total || old(
                self,
            ).active >= old(self).limit)) ==> *final(self) == *old(self),
    {
        if !window_open || self.stopped {
            self.stopped = true;
            return DispatchStep::Stopped;
        }
        if self.next_ordinal == self.total {
            return DispatchStep::Done;
        }
        if self.active < self.limit {
            let ordinal = self.next_ordinal;
            self.active = self.active + 1;
            self.next_ordinal = self.next_ordinal + 1;
            return DispatchStep::Dispatch(ordinal);
        }
        DispatchStep::Wait
    }

    /// One in-flight fetch finished, whatever its outcome; the permit is
    /// returned unconditionally.
    pub fn complete(&mut self)
        requires
            old(self).wf(),
            old(self).active >= 1,
        ensures
            final(self).wf(),
            *final(self) == (Scheduler { active: (old(self).active - 1) as usize, ..*old(self) }),
    {
        self.active = self.active - 1;
    }
}

/// What one finished segment adds to the progress accounting.
pub open spec fn outcome_bytes(o: SegmentOutcome) -> u64 {
    match o {
        SegmentOutcome::Persisted(n) => n,
        SegmentOutcome::SkippedAlreadyPresent(n) => n,
        SegmentOutcome::Corrupted => 0,
    }
}

/// The session's shared progress accumulator: bytes done against the
/// selected quality's declared size, and how many segments were degraded
/// to corrupted placeholders.
#[derive(Debug)]
pub struct Progress {
    pub done_bytes: u64,
    pub target_bytes: u64,
    pub corrupted: u64,
}

impl Progress {
    pub fn new(target_bytes: u64) -> (r: Progress)
        ensures
            r.done_bytes == 0,
            r.target_bytes == target_bytes,
            r.corrupted == 0,
    {
        Progress { done_bytes: 0, target_bytes, corrupted: 0 }
    }

    /// Accounts one finished segment: its byte count is added — exactly,
    /// whenever the sum fits the counter, saturating at the counter's
    /// capacity otherwise — and a corrupted segment is counted.
    pub fn record(&mut self, outcome: &SegmentOutcome)
        ensures
            final(self).target_bytes == old(self).target_bytes,
            old(self).done_bytes + outcome_bytes(*outcome) <= u64::MAX ==> final(self).done_bytes
                == old(self).done_bytes + outcome_bytes(*outcome),
            final(self).done_bytes == if old(self).done_bytes + outcome_bytes(*outcome)
                <= u64::MAX {
                (old(self).done_bytes + outcome_bytes(*outcome)) as u64
            } else {
                u64::MAX
            },
            final(self).corrupted == if *outcome is Corrupted && old(self).corrupted < u64::MAX {
                (old(self).corrupted + 1) as u64
            } else {
                old(self).corrupted
            },
    {
        let add = match outcome {
            SegmentOutcome::Persisted(n) => *n,
            SegmentOutcome::SkippedAlreadyPresent(n) => *n,
            SegmentOutcome::Corrupted => 0,
        };
        if add <= u64::MAX - self.done_bytes {
            self.done_bytes = self.done_bytes + add;
        } else {
            self.done_bytes = u64::MAX;
        }
        match outcome {
            SegmentOutcome::Corrupted => {
                if self.corrupted < u64::MAX {
                    self.corrupted = self.corrupted + 1;
                }
            },
            _ => {},
        }
    }

    /// The declared size has been reached.
    pub fn reached_target(&self) -> (r: bool)
        ensures
            r == (self.done_bytes >= self.target_bytes),
    {
        self.done_bytes >= self.target_bytes
    }
}

} // verus!

//! The counters by which missed updates are noticed.

use vstd::prelude::*;

verus! {

/// The client's copy of the server's update counters.
#[derive(Clone, Copy, Debug, PartialEq, Eq, Structural)]
pub struct PtsState {
    /// The main counter.
    pub pts: i32,
    /// The counter of secret chats.
    pub qts: i32,
    /// The date of the last update, in Unix time.
    pub date: i32,
    /// The counter of combined updates.
    pub seq: i32,
}

/// The server's update state, as `updates.state` carries it.
#[derive(Clone, Copy, Debug, PartialEq, Eq, Structural)]
pub struct State {
    pub pts: i32,
    pub qts: i32,
    pub date: i32,
    pub seq: i32,
    pub unread_count: i32,
}

/// What the counter of an update says about it.
#[derive(Clone, Copy, Debug, PartialEq, Eq, Structural)]
pub enum PtsCheckResult {
    /// The update is the next one: apply it.
    InOrder,
    /// Updates are missing before this one: fetch the difference.
    Gap { expected: i32, got: i32 },
    /// The update was seen before: drop it.
    Duplicate,
}

impl Default for PtsState {
    fn default() -> (s: Self)
        ensures
            s == (PtsState { pts: 0, qts: 0, date: 0, seq: 0 }),
    {
        PtsState { pts: 0, qts: 0, date: 0, seq: 0 }
    }
}

impl PtsState {
    /// The counters of the server's state.
    pub fn from_server_state(state: &State) -> (s: Self)
        ensures
            s == (PtsState { pts: state.pts, qts: state.qts, date: state.date, seq: state.seq }),
    {
        Self { pts: state.pts, qts: state.qts, date: state.date, seq: state.seq }
    }

    /// What an update with the counter `new_pts` that counts for `pts_count`
    /// events is, seen from this state.
    pub open spec fn spec_check_pts(self, new_pts: i32, pts_count: i32) -> PtsCheckResult {
        let expected = self.pts + pts_count;
        if new_pts == expected {
            PtsCheckResult::InOrder
        } else if new_pts > expected {
            PtsCheckResult::Gap {
                expected: if expected > i32::MAX {
                    i32::MAX
                } else if expected < i32::MIN {
                    i32::MIN
                } else {
                    expected as i32
                },
                got: new_pts,
            }
        } else {
            PtsCheckResult::Duplicate
        }
    }

    /// Compares `new_pts` with the counter that is due: in order if equal, a
    /// gap if greater, a duplicate if smaller. The counter that a gap reports
    /// as expected stays within 32 bits.
    pub fn check_pts(&self, new_pts: i32, pts_count: i32) -> (r: PtsCheckResult)
        ensures
            r == self.spec_check_pts(new_pts, pts_count),
    {
        let expected: i64 = self.pts as i64 + pts_count as i64;
        if new_pts as i64 == expected {
            PtsCheckResult::InOrder
        } else if new_pts as i64 > expected {
            let shown: i32 = if expected > i32::MAX as i64 {
                i32::MAX
            } else if expected < i32::MIN as i64 {
                i32::MIN
            } else {
                expected as i32
            };
            PtsCheckResult::Gap { expected: shown, got: new_pts }
        } else {
            PtsCheckResult::Duplicate
        }
    }

    /// Moves the main counter up to `new_pts`; it never moves down.
    pub fn advance(&mut self, new_pts: i32)
        ensures
            final(self).pts == if new_pts > old(self).pts {
                new_pts
            } else {
                old(self).pts
            },
            final(self).qts == old(self).qts,
            final(self).date == old(self).date,
            final(self).seq == old(self).seq,
    {
        if new_pts > self.pts {
            self.pts = new_pts;
        }
    }
}

/// What to do with an update, step by step.
#[derive(Clone, Copy, Debug, PartialEq, Eq, Structural)]
pub enum GapAction {
    /// Hand the update on; the counter has moved.
    Apply,
    /// Fetch what is missing with `updates.getDifference` before going on.
    FetchDifference { pts: i32, qts: i32, date: i32 },
    /// Nothing is known yet: ask for the server's state first.
    SyncState,
    /// Drop the update.
    Discard,
}

impl PtsState {
    /// Decides what to do with an update that carries `new_pts` and
    /// `pts_count`, and moves the counter where the update is applied.
    pub fn on_update(&mut self, new_pts: i32, pts_count: i32) -> (action: GapAction)
        ensures
            match old(self).spec_check_pts(new_pts, pts_count) {
                PtsCheckResult::InOrder => action == GapAction::Apply && final(self).pts == (
                if new_pts > old(self).pts {
                    new_pts
                } else {
                    old(self).pts
                }),
                PtsCheckResult::Gap { .. } => action == old(self).difference_request()
                    && final(self).pts == old(self).pts,
                PtsCheckResult::Duplicate => action == GapAction::Discard && final(self).pts
                    == old(self).pts,
            },
            final(self).qts == old(self).qts,
            final(self).date == old(self).date,
            final(self).seq == old(self).seq,
    {
        match self.check_pts(new_pts, pts_count) {
            PtsCheckResult::InOrder => {
                self.advance(new_pts);
                GapAction::Apply
            },
            PtsCheckResult::Gap { .. } => self.plan_difference(),
            PtsCheckResult::Duplicate => GapAction::Discard,
        }
    }

    /// The request that closes a gap from this state: the server's state
    /// where nothing is known yet, else the difference since our counters.
    pub open spec fn difference_request(self) -> GapAction {
        if self.pts == 0 {
            GapAction::SyncState
        } else {
            GapAction::FetchDifference { pts: self.pts, qts: self.qts, date: self.date }
        }
    }

    /// The request that closes a gap from this state.
    pub fn plan_difference(&self) -> (action: GapAction)
        ensures
            action == self.difference_request(),
    {
        if self.pts == 0 {
            GapAction::SyncState
        } else {
            GapAction::FetchDifference { pts: self.pts, qts: self.qts, date: self.date }
        }
    }

    /// The state after an empty difference: date and sequence move on.
    pub fn on_difference_empty(&mut self, date: i32, seq: i32)
        ensures
            *final(self) == (PtsState { date, seq, ..*old(self) }),
    {
        self.date = date;
        self.seq = seq;
    }

    /// The state after a difference that was too long to send: the counter
    /// jumps, and the server's state must be asked for.
    pub fn on_difference_too_long(&mut self, pts: i32) -> (action: GapAction)
        ensures
            *final(self) == (PtsState { pts, ..*old(self) }),
            action == GapAction::SyncState,
    {
        self.pts = pts;
        GapAction::SyncState
    }
}

} // verus!

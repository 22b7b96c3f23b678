//! How a client starts: with the stored session where that has a key for
//! its home datacenter, and afresh otherwise.

use vstd::prelude::*;
use crate::client::dc_pool::{lookup, position_of, DEFAULT_HOME_DC};
use crate::client::session::{entries_view, DcEntry, DcEntryView, PersistedSession};
use crate::text::str_copy;

verus! {

/// The address of the default home datacenter.
pub open spec fn default_home_addr() -> Seq<char> {
    "149.154.167.51:443"@
}

/// How to make the first connection.
#[derive(Debug, PartialEq, Eq)]
pub enum StartPlan {
    /// Connect to the home datacenter of the stored session and go on with
    /// its key; where that fails, start afresh.
    Resume { dc_id: i32, addr: String, auth_key: [u8; 256], first_salt: i64, time_offset: i32 },
    /// Connect to the default home datacenter and run the key exchange.
    Fresh { dc_id: i32, addr: String },
}

/// The first entry of `dcs` for the datacenter `dc_id`.
pub open spec fn first_entry(dcs: Seq<DcEntryView>, dc_id: i32) -> Option<DcEntryView> {
    lookup(dcs, dc_id)
}

/// Decides how to start, given the stored session if there is one: the
/// session is resumed where its table holds its home datacenter with a key.
#[verifier::loop_isolation(false)]
pub fn startup_plan(session: Option<&PersistedSession>) -> (plan: StartPlan)
    ensures
        match session {
            Some(s) => match first_entry(entries_view(s.dcs@), s.home_dc_id) {
                Some(e) => match e.auth_key {
                    Some(k) => plan is Resume && plan->Resume_dc_id == s.home_dc_id
                        && plan->Resume_addr@ == e.addr && plan->Resume_auth_key@ == k
                        && plan->Resume_first_salt == e.first_salt && plan->Resume_time_offset
                        == e.time_offset,
                    None => is_fresh(plan),
                },
                None => is_fresh(plan),
            },
            None => is_fresh(plan),
        },
{
    match session {
        Some(s) => {
            let ghost all = entries_view(s.dcs@);
            let mut i: usize = 0;
            assert(all.take(0) =~= Seq::<DcEntryView>::empty());
            while i < s.dcs.len()
                invariant
                    i <= s.dcs@.len(),
                    all == entries_view(s.dcs@),
                    position_of(all.take(i as int), s.home_dc_id) is None,
                decreases s.dcs@.len() - i,
            {
                proof {
                    assert(all.take(i as int + 1).drop_last() =~= all.take(i as int));
                    assert(all.take(i as int + 1).last() == s.dcs@[i as int]@);
                }
                if s.dcs[i].dc_id == s.home_dc_id {
                    proof {
                        crate::client::dc_pool::lemma_position_prefix(
                            all,
                            i as int + 1,
                            s.home_dc_id,
                        );
                    }
                    let dc = &s.dcs[i];
                    assert(first_entry(all, s.home_dc_id) == Some(dc@));
                    return match dc.auth_key {
                        Some(key) => StartPlan::Resume {
                            dc_id: s.home_dc_id,
                            addr: str_copy(dc.addr.as_str()),
                            auth_key: key,
                            first_salt: dc.first_salt,
                            time_offset: dc.time_offset,
                        },
                        None => fresh(),
                    };
                }
                i += 1;
            }
            assert(all.take(s.dcs@.len() as int) =~= all);
            fresh()
        },
        None => fresh(),
    }
}

/// `plan` is the fresh start at the default home datacenter.
pub open spec fn is_fresh(plan: StartPlan) -> bool {
    plan is Fresh && plan->Fresh_dc_id == DEFAULT_HOME_DC && plan->Fresh_addr@
        == default_home_addr()
}

/// The fresh start at the default home datacenter.
pub fn fresh() -> (plan: StartPlan)
    ensures
        is_fresh(plan),
{
    StartPlan::Fresh { dc_id: DEFAULT_HOME_DC, addr: str_copy("149.154.167.51:443") }
}

/// What follows the first `initConnection` of a start.
#[derive(Clone, Copy, Debug, PartialEq, Eq, Structural)]
pub enum AfterInit {
    /// Go on: fetch the update state.
    SyncState,
    /// The stored key was refused: start afresh and announce once more.
    FreshAndRetry,
    /// Give up.
    Fail,
}

/// Decides what follows `initConnection`: success goes on; a first
/// failure starts afresh, since the server may have refused a stale key;
/// a second failure gives up.
pub fn after_init(ok: bool, retried: bool) -> (r: AfterInit)
    ensures
        r == if ok {
            AfterInit::SyncState
        } else if !retried {
            AfterInit::FreshAndRetry
        } else {
            AfterInit::Fail
        },
{
    if ok {
        AfterInit::SyncState
    } else if !retried {
        AfterInit::FreshAndRetry
    } else {
        AfterInit::Fail
    }
}

} // verus!

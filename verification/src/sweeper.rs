//! The expiry sweeps: the decision logic of the background loops that
//! reverse time-bounded cases once their end date has passed.
//!
//! The ban sweep lists every ban case whose end date lies in the past;
//! the caller lifts the platform ban, emits the unban entry attributed
//! to the service itself, and deletes the case. The warning sweep lists
//! lapsed warnings the same way. One failing item must not stop the
//! rest: each item is deleted only after its own reversal, and a case
//! that stays behind is simply listed again by the next sweep. Once a
//! case is deleted it can never be listed again — the sweep is
//! idempotent.

use vstd::prelude::*;
use vstd::seq_lib::*;
use crate::case::{Case, CaseType};
use crate::log_types::LogType;
use crate::store::{CaseStore, is_expired};

verus! {

/// One case a sweep must reverse.
#[derive(Clone, Copy, Debug, PartialEq, Eq, Structural)]
pub struct SweepItem {
    pub guild_id: u64,
    pub user_id: u64,
    pub case_id: u32,
    /// The case's warning points (1 when none were recorded); only
    /// meaningful for the warning sweep.
    pub points: u32,
}

/// The sweep item of one case.
pub open spec fn to_sweep_item(c: Case) -> SweepItem {
    SweepItem {
        guild_id: c.guild_id,
        user_id: c.user_id,
        case_id: c.case_id,
        points: match c.points {
            Some(p) => p,
            None => 1,
        },
    }
}

/// The items one sweep of the given kind must process at `now`.
pub open spec fn spec_sweep_due(s: Seq<Case>, t: CaseType, now: u64) -> Seq<SweepItem> {
    s.filter(|c: Case| is_expired(c, t, now)).map_values(|c: Case| to_sweep_item(c))
}

/// Lists exactly the cases of the kind whose end date has passed, in
/// store order. The store is not changed; the caller deletes each case
/// only after its reversal succeeded.
pub fn sweep_due(store: &CaseStore, t: CaseType, now: u64) -> (r: Vec<SweepItem>)
    ensures
        r@ == spec_sweep_due(store@, t, now),
{
    let expired = store.expired_cases(t, now);
    let mut r: Vec<SweepItem> = Vec::new();
    let mut i: usize = 0;
    while i < expired.len()
        invariant
            i <= expired@.len(),
            expired@ == store@.filter(|c: Case| is_expired(c, t, now)),
            r@ == expired@.subrange(0, i as int).map_values(|c: Case| to_sweep_item(c)),
        decreases expired@.len() - i,
    {
        let c = &expired[i];
        let p: u32 = match c.points {
            Some(p) => p,
            None => 1,
        };
        r.push(SweepItem { guild_id: c.guild_id, user_id: c.user_id, case_id: c.case_id, points: p });
        proof {
            assert(r@ =~= expired@.subrange(0, i as int + 1).map_values(
                |c: Case| to_sweep_item(c),
            ));
        }
        i = i + 1;
    }
    proof {
        assert(expired@.subrange(0, expired@.len() as int) =~= expired@);
    }
    r
}

/// The audit category a sweep of the kind emits per reversed case: an
/// unban for a lapsed ban, a warning removal for a lapsed warning.
/// Kicks and mutes are never swept — a kick has no end date to wait
/// for, and the platform lifts a timed mute by itself.
pub fn sweep_log_type(t: CaseType) -> (r: Option<LogType>)
    ensures
        r == match t {
            CaseType::Ban => Some(LogType::Unban),
            CaseType::Warn => Some(LogType::RemoveWarn),
            CaseType::Kick => None::<LogType>,
            CaseType::Mute => None::<LogType>,
        },
{
    match t {
        CaseType::Ban => Some(LogType::Unban),
        CaseType::Warn => Some(LogType::RemoveWarn),
        CaseType::Kick => None,
        CaseType::Mute => None,
    }
}

/// Law: a sweep is idempotent. Once the cases a sweep listed are gone,
/// a second sweep at the same instant lists nothing: reversing an
/// already-reversed case can never be attempted through the sweep.
pub proof fn lemma_sweep_idempotent(s: Seq<Case>, t: CaseType, now: u64)
    ensures
        spec_sweep_due(s.filter(|c: Case| !is_expired(c, t, now)), t, now) =~= Seq::<
            SweepItem,
        >::empty(),
{
    let keep = |c: Case| !is_expired(c, t, now);
    let due = |c: Case| is_expired(c, t, now);
    let f = s.filter(keep);
    let g = f.filter(due);
    if g.len() > 0 {
        f.lemma_filter_pred(due, 0);
        assert(g.contains(g[0]));
        f.lemma_filter_contains_rev(due, g[0]);
        let i = choose|i: int| 0 <= i < f.len() && #[trigger] f[i] == g[0];
        s.lemma_filter_pred(keep, i);
        assert(false);
    }
    assert(g.map_values(|c: Case| to_sweep_item(c)) =~= Seq::<SweepItem>::empty());
}

/// Law: a sweep never lists a case before its end date has passed; in
/// particular a store whose time-bounded cases all end later than `now`
/// yields an empty sweep.
pub proof fn lemma_sweep_waits(s: Seq<Case>, t: CaseType, now: u64)
    requires
        forall|i: int|
            0 <= i < s.len() ==> ((#[trigger] s[i]).end_date matches Some(e) ==> e >= now),
    ensures
        spec_sweep_due(s, t, now) =~= Seq::<SweepItem>::empty(),
{
    let due = |c: Case| is_expired(c, t, now);
    let f = s.filter(due);
    if f.len() > 0 {
        s.lemma_filter_pred(due, 0);
        assert(f.contains(f[0]));
        s.lemma_filter_contains_rev(due, f[0]);
        let i = choose|i: int| 0 <= i < s.len() && #[trigger] s[i] == f[0];
        assert(false);
    }
    assert(f.map_values(|c: Case| to_sweep_item(c)) =~= Seq::<SweepItem>::empty());
}

} // verus!

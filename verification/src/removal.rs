//! Batch case removal: parse the requested ids, decide per-id reversal
//! and reporting, and derive the warning-removal audit entry.
//!
//! Up to ten cases may be removed at a time. A mute case is reversed by
//! re-enabling communication and logged as an unmute; a ban case by an
//! unban; warning cases accumulate into one batch entry — a single
//! removed warning is logged alone with its points, several are logged
//! as one grouped entry. Ids that match no case are reported back one by
//! one without failing the rest of the batch. All found cases leave the
//! store in one deletion after the reversals.

use vstd::prelude::*;
use crate::case::{Case, CaseType};
use crate::logs::RemovedWarn;
use crate::store::{find_case, contains_u64, CaseStore};
use crate::strings::{
    spec_parse_decimal,
    parse_decimal_chars,
    chars_of,
    char_at,
};

verus! {

/// Whitespace that is trimmed around a requested id.
pub open spec fn is_space(c: char) -> bool {
    c == ' ' || c == '\t' || c == '\n' || c == '\r'
}

/// The tokens of `s` between commas, from position `i`, with `cur` the
/// token read so far.
pub open spec fn spec_split_rec(s: Seq<char>, i: int, cur: Seq<char>) -> Seq<Seq<char>>
    decreases s.len() - i,
{
    if i < 0 || i >= s.len() {
        seq![cur]
    } else if s[i] == ',' {
        seq![cur] + spec_split_rec(s, i + 1, Seq::empty())
    } else {
        spec_split_rec(s, i + 1, cur.push(s[i]))
    }
}

/// The comma-separated tokens of `s`; a string without commas is one
/// token, an empty string one empty token.
pub open spec fn spec_split_commas(s: Seq<char>) -> Seq<Seq<char>> {
    spec_split_rec(s, 0, Seq::empty())
}

/// `s` without leading whitespace.
pub open spec fn trim_start(s: Seq<char>) -> Seq<char>
    decreases s.len(),
{
    if s.len() > 0 && is_space(s[0]) {
        trim_start(s.drop_first())
    } else {
        s
    }
}

/// `s` without trailing whitespace.
pub open spec fn trim_end(s: Seq<char>) -> Seq<char>
    decreases s.len(),
{
    if s.len() > 0 && is_space(s.last()) {
        trim_end(s.drop_last())
    } else {
        s
    }
}

/// `s` without surrounding whitespace.
pub open spec fn spec_trim(s: Seq<char>) -> Seq<char> {
    trim_end(trim_start(s))
}

/// The case id a token stands for: digits around optional whitespace,
/// valued within the id range; anything else is dropped.
pub open spec fn spec_parse_case_token(t: Seq<char>) -> Option<u32> {
    match spec_parse_decimal(spec_trim(t)) {
        Some(v) => if v <= u32::MAX {
            Some(v as u32)
        } else {
            None
        },
        None => None,
    }
}

/// Dropping `j` leading spaces reaches the trimmed start.
proof fn lemma_trim_start_skip(s: Seq<char>, j: int)
    requires
        0 <= j <= s.len(),
        forall|i: int| 0 <= i < j ==> is_space(#[trigger] s[i]),
        j == s.len() || !is_space(s[j]),
    ensures
        trim_start(s) == s.skip(j),
    decreases j,
{
    if j == 0 {
        assert(s.skip(0) =~= s);
    } else {
        assert(is_space(s[0]));
        let rest = s.drop_first();
        assert(forall|i: int| 0 <= i < j - 1 ==> rest[i] == s[i + 1]);
        lemma_trim_start_skip(rest, j - 1);
        assert(rest.skip(j - 1) =~= s.skip(j));
    }
}

/// Dropping trailing spaces down to `k` reaches the trimmed end.
proof fn lemma_trim_end_take(s: Seq<char>, k: int)
    requires
        0 <= k <= s.len(),
        forall|i: int| k <= i < s.len() ==> is_space(#[trigger] s[i]),
        k == 0 || !is_space(s[k - 1]),
    ensures
        trim_end(s) == s.take(k),
    decreases s.len(),
{
    if k == s.len() {
        if s.len() > 0 {
            assert(!is_space(s.last()));
        }
        assert(s.take(k) =~= s);
    } else {
        assert(is_space(s.last()));
        let rest = s.drop_last();
        assert(rest =~= s.take(s.len() - 1));
        assert(forall|i: int| 0 <= i < rest.len() ==> rest[i] == s[i]);
        lemma_trim_end_take(rest, k);
        assert(rest.take(k) =~= s.take(k));
    }
}

/// Whether the character is trimmed whitespace.
fn is_space_char(c: char) -> (r: bool)
    ensures
        r == is_space(c),
{
    c == ' ' || c == '\t' || c == '\n' || c == '\r'
}

/// Trims surrounding whitespace from a token.
fn trim_chars(v: &Vec<char>) -> (r: Vec<char>)
    ensures
        r@ == spec_trim(v@),
{
    let n = v.len();
    let mut start: usize = 0;
    while start < n && is_space_char(char_at(v, start))
        invariant
            v@.len() == n,
            start <= n,
            forall|i: int| 0 <= i < start ==> is_space(#[trigger] v@[i]),
        decreases n - start,
    {
        start = start + 1;
    }
    proof {
        lemma_trim_start_skip(v@, start as int);
    }
    let mut end: usize = n;
    while end > start && is_space_char(char_at(v, end - 1))
        invariant
            v@.len() == n,
            start <= end <= n,
            forall|i: int| end <= i < n ==> is_space(#[trigger] v@[i]),
        decreases end,
    {
        end = end - 1;
    }
    proof {
        let mid = v@.skip(start as int);
        assert(forall|i: int|
            end - start <= i < mid.len() ==> mid[i] == v@[i + start]);
        if end > start {
            assert(mid[end - start - 1] == v@[end as int - 1]);
        }
        lemma_trim_end_take(mid, end - start);
        assert(mid.take(end - start) =~= v@.subrange(start as int, end as int));
    }
    let mut r: Vec<char> = Vec::new();
    let mut i: usize = start;
    while i < end
        invariant
            v@.len() == n,
            start <= i <= end <= n,
            r@ == v@.subrange(start as int, i as int),
        decreases end - i,
    {
        r.push(char_at(v, i));
        proof {
            assert(r@ =~= v@.subrange(start as int, i as int + 1));
        }
        i = i + 1;
    }
    r
}

/// Parses the requested case ids: a comma-separated list, each entry
/// trimmed and read as a number; entries that are not valid ids are
/// dropped, as `"1, x, 3"` keeps 1 and 3.
pub fn parse_case_ids(s: &str) -> (r: Vec<u32>)
    ensures
        r@ == spec_split_commas(s@).filter_map(|t: Seq<char>| spec_parse_case_token(t)),
{
    let ghost f = |t: Seq<char>| spec_parse_case_token(t);
    let chars = chars_of(s);
    let n = chars.len();
    let mut r: Vec<u32> = Vec::new();
    let mut cur: Vec<char> = Vec::new();
    let ghost mut toks: Seq<Seq<char>> = Seq::empty();
    let mut i: usize = 0;
    proof {
        assert(toks.filter_map(f) =~= Seq::<u32>::empty());
    }
    while i < n
        invariant
            chars@ == s@,
            chars@.len() == n,
            i <= n,
            f == (|t: Seq<char>| spec_parse_case_token(t)),
            r@ == toks.filter_map(f),
            spec_split_commas(s@) == toks + spec_split_rec(s@, i as int, cur@),
        decreases n - i,
    {
        let c = char_at(&chars, i);
        if c == ',' {
            push_token(&mut r, &cur, Ghost(f));
            proof {
                let t = cur@;
                assert((toks.push(t)).drop_last() =~= toks);
                assert((toks.push(t)).filter_map(f) == toks.filter_map(f) + match f(t) {
                    Some(b) => seq![b],
                    None => Seq::<u32>::empty(),
                });
                assert(toks + spec_split_rec(s@, i as int, cur@) == (toks.push(t))
                    + spec_split_rec(s@, i as int + 1, Seq::empty())) by {
                    assert(toks + (seq![t] + spec_split_rec(s@, i as int + 1, Seq::empty())) =~= (
                    toks.push(t)) + spec_split_rec(s@, i as int + 1, Seq::empty()));
                }
            }
            proof {
                toks = toks.push(cur@);
            }
            cur = Vec::new();
        } else {
            cur.push(c);
        }
        i = i + 1;
    }
    push_token(&mut r, &cur, Ghost(f));
    proof {
        let t = cur@;
        assert(spec_split_rec(s@, n as int, t) == seq![t]);
        assert((toks.push(t)).drop_last() =~= toks);
        assert((toks.push(t)).filter_map(f) == toks.filter_map(f) + match f(t) {
            Some(b) => seq![b],
            None => Seq::<u32>::empty(),
        });
        assert(toks + seq![t] =~= toks.push(t));
        assert(r@ == (toks.push(t)).filter_map(f));
    }
    r
}

/// Appends the id a token stands for, if it is one.
fn push_token(r: &mut Vec<u32>, cur: &Vec<char>, Ghost(f): Ghost<spec_fn(Seq<char>) -> Option<u32>>)
    requires
        f == (|t: Seq<char>| spec_parse_case_token(t)),
    ensures
        final(r)@ == old(r)@ + match f(cur@) {
            Some(b) => seq![b],
            None => Seq::<u32>::empty(),
        },
{
    let trimmed = trim_chars(cur);
    match parse_decimal_chars(&trimmed) {
        Some(v) => {
            if v <= u32::MAX as u64 {
                r.push(v as u32);
                proof {
                    assert(r@ =~= old(r)@ + seq![(v as u32)]);
                }
            } else {
                proof {
                    assert(r@ =~= old(r)@ + Seq::<u32>::empty());
                }
            }
        },
        None => {
            proof {
                assert(r@ =~= old(r)@ + Seq::<u32>::empty());
            }
        },
    }
}


/// How many cases one batch may remove.
pub const MAX_BATCH: usize = 10;

/// Why a removal batch is refused before any case is touched.
#[derive(Clone, Copy, Debug, PartialEq, Eq, Structural)]
pub enum BatchError {
    /// No entry of the request was a valid case id.
    NoValidIds,
    /// More ids than one batch may carry.
    TooMany,
}

/// Accepts a batch of 1 to `MAX_BATCH` ids.
pub fn check_batch(ids: &Vec<u32>) -> (r: Result<(), BatchError>)
    ensures
        ids@.len() == 0 ==> r == Err::<(), BatchError>(BatchError::NoValidIds),
        ids@.len() > MAX_BATCH ==> r == Err::<(), BatchError>(BatchError::TooMany),
        1 <= ids@.len() <= MAX_BATCH ==> r is Ok,
{
    if ids.len() == 0 {
        Err(BatchError::NoValidIds)
    } else if ids.len() > MAX_BATCH {
        Err(BatchError::TooMany)
    } else {
        Ok(())
    }
}

/// What the batch reports back for one requested id.
#[derive(Clone, Copy, Debug, PartialEq, Eq, Structural)]
pub enum CaseReport {
    /// The id named a case; it is removed.
    Removed { case_id: u32, user_id: u64, kind: CaseType },
    /// The id named no case of the guild; the rest of the batch goes on.
    NotFound { case_id: u32 },
}

/// A platform reversal the caller must perform for a removed case.
#[derive(Clone, Copy, Debug, PartialEq, Eq, Structural)]
pub enum Reversal {
    /// A removed ban case: lift the platform ban.
    Unban { user_id: u64, case_id: u32 },
    /// A removed mute case: re-enable communication.
    Unmute { user_id: u64, case_id: u32 },
}

/// The removed warnings of one user, as one group of the batch entry.
pub struct WarnGroup {
    pub user_id: u64,
    pub warns: Vec<RemovedWarn>,
}

/// The warning part of the batch's audit entry.
pub enum WarnRemovalLog {
    /// The batch removed no warning: no warning entry.
    NoWarns,
    /// Exactly one warning: one entry with its points.
    Single(RemovedWarn),
    /// Two or more: one grouped entry listing all of them by user.
    Multiple(Vec<WarnGroup>),
}

/// What the report of one requested id must say.
pub open spec fn spec_report(s: Seq<Case>, guild_id: u64, id: u32) -> CaseReport {
    match find_case(s, guild_id, id) {
        None => CaseReport::NotFound { case_id: id },
        Some(c) => CaseReport::Removed { case_id: id, user_id: c.user_id, kind: c.case_type },
    }
}

/// The platform reversals of the batch, in request order.
pub open spec fn spec_reversals(s: Seq<Case>, guild_id: u64, ids: Seq<u32>) -> Seq<Reversal>
    decreases ids.len(),
{
    if ids.len() == 0 {
        Seq::empty()
    } else {
        let rest = spec_reversals(s, guild_id, ids.drop_last());
        match find_case(s, guild_id, ids.last()) {
            Some(c) => if c.case_type == CaseType::Ban {
                rest.push(Reversal::Unban { user_id: c.user_id, case_id: ids.last() })
            } else if c.case_type == CaseType::Mute {
                rest.push(Reversal::Unmute { user_id: c.user_id, case_id: ids.last() })
            } else {
                rest
            },
            None => rest,
        }
    }
}

/// The removed warnings of the batch, in request order; an unrecorded
/// point value counts as 1.
pub open spec fn spec_removed_warns(s: Seq<Case>, guild_id: u64, ids: Seq<u32>) -> Seq<RemovedWarn>
    decreases ids.len(),
{
    if ids.len() == 0 {
        Seq::empty()
    } else {
        let rest = spec_removed_warns(s, guild_id, ids.drop_last());
        match find_case(s, guild_id, ids.last()) {
            Some(c) => if c.case_type == CaseType::Warn {
                rest.push(
                    RemovedWarn {
                        user_id: c.user_id,
                        case_id: ids.last(),
                        points: match c.points {
                            Some(p) => p,
                            None => 1,
                        },
                    },
                )
            } else {
                rest
            },
            None => rest,
        }
    }
}

/// The distinct users of the removed warnings, in order of first
/// appearance.
pub open spec fn group_users(ws: Seq<RemovedWarn>) -> Seq<u64>
    decreases ws.len(),
{
    if ws.len() == 0 {
        Seq::empty()
    } else {
        let rest = group_users(ws.drop_last());
        if rest.contains(ws.last().user_id) {
            rest
        } else {
            rest.push(ws.last().user_id)
        }
    }
}

/// Whether one of the warnings belongs to the user.
pub open spec fn user_in_warns(ws: Seq<RemovedWarn>, u: u64) -> bool {
    exists|i: int| 0 <= i < ws.len() && (#[trigger] ws[i]).user_id == u
}

/// Whether the users are pairwise distinct.
pub open spec fn distinct_users(us: Seq<u64>) -> bool {
    forall|a: int, b: int| 0 <= a < b < us.len() ==> us[a] != us[b]
}

/// A user stands in `group_users` exactly when one of the warnings is
/// theirs, and each user stands there once.
pub proof fn lemma_group_users_props(ws: Seq<RemovedWarn>)
    ensures
        forall|u: u64|
            #![trigger group_users(ws).contains(u)]
            group_users(ws).contains(u) <==> user_in_warns(ws, u),
        distinct_users(group_users(ws)),
    decreases ws.len(),
{
    if ws.len() > 0 {
        lemma_group_users_props(ws.drop_last());
        let wsdl = ws.drop_last();
        let rest = group_users(wsdl);
        assert forall|u: u64| #![trigger group_users(ws).contains(u)]
            group_users(ws).contains(u) <==> user_in_warns(ws, u) by {
            if group_users(ws).contains(u) {
                if rest.contains(u) {
                    assert(user_in_warns(wsdl, u));
                    let i = choose|i: int|
                        0 <= i < wsdl.len() && (#[trigger] wsdl[i]).user_id == u;
                    assert(ws[i] == wsdl[i]);
                    assert(user_in_warns(ws, u));
                } else {
                    assert(u == ws.last().user_id);
                    assert(ws[ws.len() - 1] == ws.last());
                    assert(user_in_warns(ws, u));
                }
            }
            if user_in_warns(ws, u) {
                let i = choose|i: int| 0 <= i < ws.len() && (#[trigger] ws[i]).user_id == u;
                if i < ws.len() - 1 {
                    assert(wsdl[i] == ws[i]);
                    assert(user_in_warns(wsdl, u));
                    assert(rest.contains(u));
                    let k = choose|k: int| 0 <= k < rest.len() && rest[k] == u;
                    assert(group_users(ws)[k] == u);
                    assert(group_users(ws).contains(u));
                } else {
                    assert(u == ws.last().user_id);
                    if !rest.contains(u) {
                        assert(group_users(ws)[group_users(ws).len() - 1] == u);
                        assert(group_users(ws).contains(u));
                    } else {
                        let k = choose|k: int| 0 <= k < rest.len() && rest[k] == u;
                        assert(group_users(ws)[k] == u);
                        assert(group_users(ws).contains(u));
                    }
                }
            }
        }
        if !rest.contains(ws.last().user_id) {
            assert forall|a: int, b: int|
                0 <= a < b < group_users(ws).len() implies group_users(ws)[a] != group_users(
                ws,
            )[b] by {
                if b < rest.len() {
                } else {
                    assert(group_users(ws)[b] == ws.last().user_id);
                    assert(group_users(ws)[a] == rest[a]);
                    assert(rest.contains(rest[a]));
                }
            }
        }
    }
}

/// The removed warnings that belong to one user, in batch order.
fn warns_of_user(ws: &Vec<RemovedWarn>, u: u64) -> (r: Vec<RemovedWarn>)
    ensures
        r@ == ws@.filter(|w: RemovedWarn| w.user_id == u),
{
    let mut r: Vec<RemovedWarn> = Vec::new();
    let mut i: usize = 0;
    proof {
        reveal(Seq::filter);
    }
    while i < ws.len()
        invariant
            i <= ws@.len(),
            r@ == ws@.subrange(0, i as int).filter(|w: RemovedWarn| w.user_id == u),
        decreases ws@.len() - i,
    {
        proof {
            reveal(Seq::filter);
            assert(ws@.subrange(0, i as int + 1).drop_last() =~= ws@.subrange(0, i as int));
            assert(ws@.subrange(0, i as int + 1).last() == ws@[i as int]);
        }
        let w = ws[i];
        if w.user_id == u {
            r.push(w);
        }
        i = i + 1;
    }
    proof {
        assert(ws@.subrange(0, ws@.len() as int) =~= ws@);
    }
    r
}

/// The distinct users of the warnings, in order of first appearance.
fn distinct_users_of(ws: &Vec<RemovedWarn>) -> (r: Vec<u64>)
    ensures
        r@ == group_users(ws@),
{
    let mut r: Vec<u64> = Vec::new();
    let mut i: usize = 0;
    while i < ws.len()
        invariant
            i <= ws@.len(),
            r@ == group_users(ws@.subrange(0, i as int)),
        decreases ws@.len() - i,
    {
        proof {
            assert(ws@.subrange(0, i as int + 1).drop_last() =~= ws@.subrange(0, i as int));
            assert(ws@.subrange(0, i as int + 1).last() == ws@[i as int]);
        }
        let w = ws[i];
        if !contains_u64(&r, w.user_id) {
            r.push(w.user_id);
        }
        i = i + 1;
    }
    proof {
        assert(ws@.subrange(0, ws@.len() as int) =~= ws@);
    }
    r
}

/// Groups the removed warnings by user, in order of first appearance;
/// each group holds that user's warnings in batch order.
pub fn group_warns(ws: &Vec<RemovedWarn>) -> (r: Vec<WarnGroup>)
    ensures
        r@.len() == group_users(ws@).len(),
        forall|j: int| 0 <= j < r@.len() ==> (#[trigger] r@[j]).user_id == group_users(ws@)[j],
        forall|j: int|
            0 <= j < r@.len() ==> (#[trigger] r@[j]).warns@ == ws@.filter(
                |w: RemovedWarn| w.user_id == r@[j].user_id,
            ),
{
    let users = distinct_users_of(ws);
    let mut r: Vec<WarnGroup> = Vec::new();
    let mut i: usize = 0;
    while i < users.len()
        invariant
            i <= users@.len(),
            users@ == group_users(ws@),
            r@.len() == i,
            forall|j: int| 0 <= j < i ==> (#[trigger] r@[j]).user_id == users@[j],
            forall|j: int|
                0 <= j < i ==> (#[trigger] r@[j]).warns@ == ws@.filter(
                    |w: RemovedWarn| w.user_id == r@[j].user_id,
                ),
        decreases users@.len() - i,
    {
        let u = users[i];
        let warns = warns_of_user(ws, u);
        r.push(WarnGroup { user_id: u, warns });
        i = i + 1;
    }
    r
}

/// Everything one batch removal decides before the store is touched:
/// the per-id reports, the platform reversals the caller must perform,
/// the removed warnings and their audit entry.
pub struct RemovalPlan {
    pub reports: Vec<CaseReport>,
    pub reversals: Vec<Reversal>,
    pub removed_warns: Vec<RemovedWarn>,
    pub warn_log: WarnRemovalLog,
}

/// Plans one removal batch against the store: every id is reported
/// (found ids with their case's user and kind, unknown ids as not
/// found), ban and mute cases get their reversal, and the removed
/// warnings yield no entry, a single entry, or one grouped entry.
pub fn plan_removal(store: &CaseStore, guild_id: u64, ids: &Vec<u32>) -> (r: RemovalPlan)
    ensures
        r.reports@.len() == ids@.len(),
        forall|k: int|
            0 <= k < ids@.len() ==> r.reports@[k] == spec_report(store@, guild_id, #[trigger] ids@[k]),
        r.reversals@ == spec_reversals(store@, guild_id, ids@),
        r.removed_warns@ == spec_removed_warns(store@, guild_id, ids@),
        r.removed_warns@.len() == 0 ==> r.warn_log is NoWarns,
        r.removed_warns@.len() == 1 ==> r.warn_log == WarnRemovalLog::Single(
            spec_removed_warns(store@, guild_id, ids@)[0],
        ),
        r.removed_warns@.len() >= 2 ==> (r.warn_log matches WarnRemovalLog::Multiple(gs)
            && gs@.len() == group_users(r.removed_warns@).len() && (forall|j: int|
            0 <= j < gs@.len() ==> (#[trigger] gs@[j]).user_id == group_users(r.removed_warns@)[j])
            && (forall|j: int|
            0 <= j < gs@.len() ==> (#[trigger] gs@[j]).warns@ == r.removed_warns@.filter(
                |w: RemovedWarn| w.user_id == gs@[j].user_id,
            ))),
{
    let mut reports: Vec<CaseReport> = Vec::new();
    let mut reversals: Vec<Reversal> = Vec::new();
    let mut warns: Vec<RemovedWarn> = Vec::new();
    let mut k: usize = 0;
    while k < ids.len()
        invariant
            k <= ids@.len(),
            reports@.len() == k,
            forall|j: int|
                0 <= j < k ==> reports@[j] == spec_report(store@, guild_id, #[trigger] ids@[j]),
            reversals@ == spec_reversals(store@, guild_id, ids@.subrange(0, k as int)),
            warns@ == spec_removed_warns(store@, guild_id, ids@.subrange(0, k as int)),
        decreases ids@.len() - k,
    {
        let id = ids[k];
        proof {
            assert(ids@.subrange(0, k as int + 1).drop_last() =~= ids@.subrange(0, k as int));
            assert(ids@.subrange(0, k as int + 1).last() == ids@[k as int]);
        }
        match store.case_by_id(guild_id, id) {
            None => {
                reports.push(CaseReport::NotFound { case_id: id });
            },
            Some(c) => {
                reports.push(
                    CaseReport::Removed { case_id: id, user_id: c.user_id, kind: c.case_type },
                );
                if matches!(c.case_type, CaseType::Ban) {
                    reversals.push(Reversal::Unban { user_id: c.user_id, case_id: id });
                } else if matches!(c.case_type, CaseType::Mute) {
                    reversals.push(Reversal::Unmute { user_id: c.user_id, case_id: id });
                } else if matches!(c.case_type, CaseType::Warn) {
                    let p: u32 = match c.points {
                        Some(p) => p,
                        None => 1,
                    };
                    warns.push(RemovedWarn { user_id: c.user_id, case_id: id, points: p });
                }
            },
        }
        k = k + 1;
    }
    proof {
        assert(ids@.subrange(0, ids@.len() as int) =~= ids@);
    }
    let warn_log: WarnRemovalLog = if warns.len() == 0 {
        WarnRemovalLog::NoWarns
    } else if warns.len() == 1 {
        WarnRemovalLog::Single(warns[0])
    } else {
        WarnRemovalLog::Multiple(group_warns(&warns))
    };
    RemovalPlan { reports, reversals, removed_warns: warns, warn_log }
}

/// No id of the batch names a case: nothing is reversed, no warning is
/// collected.
pub proof fn lemma_nothing_found(s: Seq<Case>, guild_id: u64, ids: Seq<u32>)
    requires
        forall|k: int| 0 <= k < ids.len() ==> find_case(s, guild_id, #[trigger] ids[k]) is None,
    ensures
        spec_removed_warns(s, guild_id, ids).len() == 0,
        spec_reversals(s, guild_id, ids).len() == 0,
    decreases ids.len(),
{
    if ids.len() > 0 {
        assert forall|k: int|
            0 <= k < ids.drop_last().len() implies find_case(
            s,
            guild_id,
            #[trigger] ids.drop_last()[k],
        ) is None by {
            assert(ids.drop_last()[k] == ids[k]);
        }
        lemma_nothing_found(s, guild_id, ids.drop_last());
        assert(ids[ids.len() - 1] == ids.last());
    }
}

/// A batch that holds an id naming a warning case collects at least
/// that warning.
proof fn lemma_warn_found_nonempty(s: Seq<Case>, guild_id: u64, ids: Seq<u32>, j: int)
    requires
        0 <= j < ids.len(),
        (find_case(s, guild_id, ids[j]) matches Some(c) && c.case_type == CaseType::Warn),
    ensures
        spec_removed_warns(s, guild_id, ids).len() >= 1,
    decreases ids.len(),
{
    if j == ids.len() - 1 {
        assert(ids.last() == ids[j]);
    } else {
        assert(ids.drop_last()[j] == ids[j]);
        lemma_warn_found_nonempty(s, guild_id, ids.drop_last(), j);
    }
}

/// Law: a batch where exactly one id names a case — a warning — and
/// every other id names none yields exactly one removed warning, so its
/// audit entry is the single-warning form, and each other id reports
/// back as not found.
pub proof fn lemma_single_warn_batch(s: Seq<Case>, guild_id: u64, ids: Seq<u32>, j: int)
    requires
        0 <= j < ids.len(),
        (find_case(s, guild_id, ids[j]) matches Some(c) && c.case_type == CaseType::Warn),
        forall|k: int|
            0 <= k < ids.len() && k != j ==> find_case(s, guild_id, #[trigger] ids[k]) is None,
    ensures
        spec_removed_warns(s, guild_id, ids).len() == 1,
        forall|k: int|
            0 <= k < ids.len() && k != j ==> (spec_report(s, guild_id, #[trigger] ids[k])
                matches CaseReport::NotFound { case_id } && case_id == ids[k]),
    decreases ids.len(),
{
    if j == ids.len() - 1 {
        assert(ids.last() == ids[j]);
        assert forall|k: int|
            0 <= k < ids.drop_last().len() implies find_case(
            s,
            guild_id,
            #[trigger] ids.drop_last()[k],
        ) is None by {
            assert(ids.drop_last()[k] == ids[k]);
        }
        lemma_nothing_found(s, guild_id, ids.drop_last());
    } else {
        assert(ids.drop_last()[j] == ids[j]);
        assert forall|k: int|
            0 <= k < ids.drop_last().len() && k != j implies find_case(
            s,
            guild_id,
            #[trigger] ids.drop_last()[k],
        ) is None by {
            assert(ids.drop_last()[k] == ids[k]);
        }
        lemma_single_warn_batch(s, guild_id, ids.drop_last(), j);
        assert(ids[ids.len() - 1] == ids.last());
    }
}

/// Law: a batch that removes two or more warning cases collects two or
/// more removed warnings, so its audit entry is the one grouped form —
/// a single entry listing all of them by user — and never the
/// single-warning form.
pub proof fn lemma_multi_warn_batch(s: Seq<Case>, guild_id: u64, ids: Seq<u32>, j1: int, j2: int)
    requires
        0 <= j1 < j2 < ids.len(),
        (find_case(s, guild_id, ids[j1]) matches Some(c) && c.case_type == CaseType::Warn),
        (find_case(s, guild_id, ids[j2]) matches Some(c) && c.case_type == CaseType::Warn),
    ensures
        spec_removed_warns(s, guild_id, ids).len() >= 2,
    decreases ids.len(),
{
    if j2 == ids.len() - 1 {
        assert(ids.last() == ids[j2]);
        assert(ids.drop_last()[j1] == ids[j1]);
        lemma_warn_found_nonempty(s, guild_id, ids.drop_last(), j1);
    } else {
        assert(ids.drop_last()[j1] == ids[j1]);
        assert(ids.drop_last()[j2] == ids[j2]);
        lemma_multi_warn_batch(s, guild_id, ids.drop_last(), j1, j2);
    }
}

} // verus!

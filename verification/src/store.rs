//! The case store: the durable table of moderation cases.
//!
//! The store owns case-id allocation. Ids are unique within a guild and
//! assigned sequentially: the next id of a guild is one more than the
//! greatest id the guild's cases ever held, so ids are never reused even
//! after deletion. Allocation and insertion happen in one exclusive call
//! (`create_case`), which keeps allocation race-free when the store sits
//! behind a lock, as a database connection does.

use vstd::prelude::*;
use crate::case::{Case, CaseType};

verus! {

/// The id high-water mark of one guild: the greatest case id the guild
/// was ever issued. It survives deletions, so ids are never reused.
#[derive(Clone, Copy, Debug, PartialEq, Eq, Structural)]
pub struct GuildCounter {
    pub guild_id: u64,
    pub last_id: u32,
}

/// The guild's high-water mark in the counter table; 0 for a guild that
/// was never issued an id.
pub open spec fn counter_value(cs: Seq<GuildCounter>, guild_id: u64) -> int
    decreases cs.len(),
{
    if cs.len() == 0 {
        0
    } else if cs[0].guild_id == guild_id {
        cs[0].last_id as int
    } else {
        counter_value(cs.drop_first(), guild_id)
    }
}

/// At most one counter row per guild.
pub open spec fn counters_wf(cs: Seq<GuildCounter>) -> bool {
    forall|i: int, j: int|
        #![trigger cs[i].guild_id, cs[j].guild_id]
        0 <= i < cs.len() && 0 <= j < cs.len() && i != j ==> cs[i].guild_id != cs[j].guild_id
}

/// Every stored case keeps its id at or under its guild's high-water mark.
pub open spec fn cases_bounded(s: Seq<Case>, cs: Seq<GuildCounter>) -> bool {
    forall|i: int|
        0 <= i < s.len() ==> (#[trigger] s[i]).case_id <= counter_value(cs, s[i].guild_id)
}

/// Raising one guild's counter changes no other guild's value.
proof fn lemma_counter_value_update(cs: Seq<GuildCounter>, i: int, v: u32)
    requires
        counters_wf(cs),
        0 <= i < cs.len(),
    ensures
        counter_value(
            cs.update(i, (GuildCounter { guild_id: cs[i].guild_id, last_id: v })),
            cs[i].guild_id,
        ) == v,
        forall|g: u64|
            g != cs[i].guild_id ==> counter_value(
                cs.update(i, (GuildCounter { guild_id: cs[i].guild_id, last_id: v })),
                g,
            ) == counter_value(cs, g),
        counters_wf(cs.update(i, (GuildCounter { guild_id: cs[i].guild_id, last_id: v }))),
    decreases cs.len(),
{
    let up = cs.update(i, (GuildCounter { guild_id: cs[i].guild_id, last_id: v }));
    assert(forall|a: int| 0 <= a < cs.len() && a != i ==> up[a] == cs[a]);
    if i == 0 {
        assert(up.drop_first() =~= cs.drop_first());
        assert forall|g: u64| g != cs[i].guild_id implies counter_value(up, g) == counter_value(
            cs,
            g,
        ) by {
            assert(counter_value(up, g) == counter_value(up.drop_first(), g));
            assert(counter_value(cs, g) == counter_value(cs.drop_first(), g));
        }
    } else {
        assert(up[0] == cs[0]);
        let rest = cs.drop_first();
        assert(counters_wf(rest)) by {
            assert(forall|a: int| 0 <= a < rest.len() ==> rest[a] == cs[a + 1]);
        }
        let rest_up = rest.update(
            i - 1,
            (GuildCounter { guild_id: rest[i - 1].guild_id, last_id: v }),
        );
        assert(up.drop_first() =~= rest_up);
        lemma_counter_value_update(rest, i - 1, v);
        assert(cs[0].guild_id != cs[i].guild_id);
        assert forall|g: u64| g != cs[i].guild_id implies counter_value(up, g) == counter_value(
            cs,
            g,
        ) by {
            if cs[0].guild_id == g {
            } else {
                assert(counter_value(up, g) == counter_value(rest_up, g));
                assert(counter_value(rest_up, g) == counter_value(rest, g));
                assert(counter_value(cs, g) == counter_value(rest, g));
            }
        }
    }
}

/// Adding a fresh guild's counter changes no other guild's value.
proof fn lemma_counter_value_push(cs: Seq<GuildCounter>, c: GuildCounter)
    requires
        counters_wf(cs),
        forall|i: int| 0 <= i < cs.len() ==> (#[trigger] cs[i]).guild_id != c.guild_id,
    ensures
        counter_value(cs.push(c), c.guild_id) == c.last_id,
        forall|g: u64| g != c.guild_id ==> counter_value(cs.push(c), g) == counter_value(cs, g),
        counters_wf(cs.push(c)),
    decreases cs.len(),
{
    let pu = cs.push(c);
    assert(forall|a: int| 0 <= a < cs.len() ==> pu[a] == cs[a]);
    assert(pu[cs.len() as int] == c);
    if cs.len() == 0 {
        assert(pu[0] == c);
        assert(pu.drop_first() =~= Seq::<GuildCounter>::empty());
        assert forall|g: u64| g != c.guild_id implies counter_value(pu, g) == counter_value(
            cs,
            g,
        ) by {
            assert(counter_value(pu, g) == counter_value(pu.drop_first(), g));
        }
    } else {
        let rest = cs.drop_first();
        assert(counters_wf(rest)) by {
            assert(forall|a: int| 0 <= a < rest.len() ==> rest[a] == cs[a + 1]);
        }
        assert(forall|i: int| 0 <= i < rest.len() ==> (#[trigger] rest[i]).guild_id == cs[i + 1].guild_id);
        lemma_counter_value_push(rest, c);
        assert(pu.drop_first() =~= rest.push(c));
        assert(cs[0].guild_id != c.guild_id);
        assert forall|g: u64| g != c.guild_id implies counter_value(pu, g) == counter_value(
            cs,
            g,
        ) by {
            if cs[0].guild_id == g {
            } else {
                assert(counter_value(pu, g) == counter_value(rest.push(c), g));
                assert(counter_value(rest.push(c), g) == counter_value(rest, g));
                assert(counter_value(cs, g) == counter_value(rest, g));
            }
        }
    }
}

/// The case ids held by the guild's cases in `s`.
pub open spec fn guild_case_ids(s: Seq<Case>, guild_id: u64) -> Set<int> {
    Set::new(
        |n: int|
            exists|i: int|
                0 <= i < s.len() && (#[trigger] s[i]).guild_id == guild_id && s[i].case_id == n,
    )
}

/// An open mute of `user_id` in the guild whose end date has not passed.
pub open spec fn is_active_mute(c: Case, guild_id: u64, user_id: u64, now: u64) -> bool {
    &&& c.guild_id == guild_id
    &&& c.user_id == user_id
    &&& c.case_type == CaseType::Mute
    &&& c.end_date matches Some(e) && e > now
}

/// A time-bounded case of the given kind whose end date has passed.
pub open spec fn is_expired(c: Case, t: CaseType, now: u64) -> bool {
    c.case_type == t && (c.end_date matches Some(e) && e < now)
}

/// The first case of the guild with the given id, if any; under the
/// store's invariant it is the only one.
pub open spec fn find_case(s: Seq<Case>, guild_id: u64, case_id: u32) -> Option<Case>
    decreases s.len(),
{
    if s.len() == 0 {
        None
    } else if s[0].guild_id == guild_id && s[0].case_id == case_id {
        Some(s[0])
    } else {
        find_case(s.drop_first(), guild_id, case_id)
    }
}

/// The points one warning contributes to a user's outstanding total:
/// its recorded points, or 1 when none were recorded.
pub open spec fn warn_points(c: Case) -> int {
    match c.points {
        Some(p) => p as int,
        None => 1,
    }
}

/// Sum of outstanding warning points of `user_id` in the guild.
pub open spec fn total_warn_points(s: Seq<Case>, guild_id: u64, user_id: u64) -> int
    decreases s.len(),
{
    if s.len() == 0 {
        0
    } else {
        total_warn_points(s.drop_last(), guild_id, user_id) + if s.last().guild_id == guild_id
            && s.last().user_id == user_id && s.last().case_type == CaseType::Warn {
            warn_points(s.last())
        } else {
            0
        }
    }
}

/// Every record is well-formed and case ids never repeat within a guild.
pub open spec fn wf_seq(s: Seq<Case>) -> bool {
    &&& forall|i: int| 0 <= i < s.len() ==> (#[trigger] s[i]).wf()
    &&& forall|i: int, j: int|
        #![trigger s[i].guild_id, s[j].guild_id]
        0 <= i < s.len() && 0 <= j < s.len() && i != j && s[i].guild_id == s[j].guild_id
            ==> s[i].case_id != s[j].case_id
}

/// Deleting cases (a filter) keeps the store well-formed.
pub proof fn lemma_wf_filter(s: Seq<Case>, pred: spec_fn(Case) -> bool)
    requires
        wf_seq(s),
    ensures
        wf_seq(s.filter(pred)),
    decreases s.len(),
{
    reveal(Seq::filter);
    if s.len() > 0 {
        assert(wf_seq(s.drop_last())) by {
            assert forall|i: int| 0 <= i < s.drop_last().len() implies (
            #[trigger] s.drop_last()[i]).wf() by {
                assert(s.drop_last()[i] == s[i]);
            }
        }
        lemma_wf_filter(s.drop_last(), pred);
        let f0 = s.drop_last().filter(pred);
        if pred(s.last()) {
            lemma_filter_from(s.drop_last(), pred);
            assert forall|i: int, j: int|
                #![trigger s.filter(pred)[i].guild_id, s.filter(pred)[j].guild_id]
                0 <= i < s.filter(pred).len() && 0 <= j < s.filter(pred).len() && i != j && s.filter(
                    pred,
                )[i].guild_id == s.filter(pred)[j].guild_id implies s.filter(pred)[i].case_id != s
                .filter(pred)[j].case_id by {
                if i < f0.len() && j < f0.len() {
                } else if i == f0.len() && j < f0.len() {
                    let sj = choose|k: int|
                        0 <= k < s.drop_last().len() && #[trigger] s.drop_last()[k] == f0[j];
                    assert(s[sj] == f0[j]);
                    assert(s[s.len() - 1] == s.last());
                } else if j == f0.len() && i < f0.len() {
                    let si = choose|k: int|
                        0 <= k < s.drop_last().len() && #[trigger] s.drop_last()[k] == f0[i];
                    assert(s[si] == f0[i]);
                    assert(s[s.len() - 1] == s.last());
                }
            }
        }
    }
}

/// Every element of a filtered sequence stands somewhere in the source sequence.
pub proof fn lemma_filter_from(s: Seq<Case>, pred: spec_fn(Case) -> bool)
    ensures
        forall|i: int|
            0 <= i < s.filter(pred).len() ==> exists|k: int|
                0 <= k < s.len() && #[trigger] s[k] == #[trigger] s.filter(pred)[i],
    decreases s.len(),
{
    reveal(Seq::filter);
    if s.len() > 0 {
        lemma_filter_from(s.drop_last(), pred);
        let f0 = s.drop_last().filter(pred);
        assert forall|i: int| 0 <= i < s.filter(pred).len() implies exists|k: int|
            0 <= k < s.len() && #[trigger] s[k] == #[trigger] s.filter(pred)[i] by {
            if i < f0.len() {
                let k = choose|k: int|
                    0 <= k < s.drop_last().len() && #[trigger] s.drop_last()[k] == f0[i];
                assert(s[k] == s.filter(pred)[i]);
            } else {
                assert(s[s.len() - 1] == s.filter(pred)[i]);
            }
        }
    }
}

/// Whether `x` occurs in the vector.
pub fn contains_u32(v: &Vec<u32>, x: u32) -> (r: bool)
    ensures
        r == v@.contains(x),
{
    let mut i: usize = 0;
    while i < v.len()
        invariant
            i <= v@.len(),
            forall|k: int| 0 <= k < i ==> v@[k] != x,
        decreases v@.len() - i,
    {
        if v[i] == x {
            return true;
        }
        i = i + 1;
    }
    false
}

/// Whether `x` occurs in the vector.
pub fn contains_u64(v: &Vec<u64>, x: u64) -> (r: bool)
    ensures
        r == v@.contains(x),
{
    let mut i: usize = 0;
    while i < v.len()
        invariant
            i <= v@.len(),
            forall|k: int| 0 <= k < i ==> v@[k] != x,
        decreases v@.len() - i,
    {
        if v[i] == x {
            return true;
        }
        i = i + 1;
    }
    false
}

/// Which cases a listing request selects, always scoped to one guild.
#[derive(Clone, Copy, Debug, PartialEq, Eq, Structural)]
pub enum CaseFilter {
    /// Every case of the guild.
    All,
    /// The cases against one user.
    ByUser(u64),
    /// The cases one moderator issued.
    ByModerator(u64),
    /// The single case with this id.
    ById(u32),
}

/// Whether a case is selected by the filter.
pub open spec fn matches_filter(c: Case, guild_id: u64, f: CaseFilter) -> bool {
    c.guild_id == guild_id && match f {
        CaseFilter::All => true,
        CaseFilter::ByUser(u) => c.user_id == u,
        CaseFilter::ByModerator(m) => c.moderator_id == m,
        CaseFilter::ById(id) => c.case_id == id,
    }
}

/// The durable table of moderation cases of all guilds, with each
/// guild's id high-water mark.
pub struct CaseStore {
    cases: Vec<Case>,
    counters: Vec<GuildCounter>,
}

impl View for CaseStore {
    type V = Seq<Case>;

    closed spec fn view(&self) -> Seq<Case> {
        self.cases@
    }
}

impl CaseStore {
    /// The counter table, one row per guild ever issued an id.
    pub closed spec fn spec_counters(&self) -> Seq<GuildCounter> {
        self.counters@
    }

    /// The greatest case id the guild was ever issued; 0 before the
    /// first. Deletions never lower it, so ids are never reused.
    pub open spec fn last_issued(&self, guild_id: u64) -> int {
        counter_value(self.spec_counters(), guild_id)
    }

    /// The store's invariant: every record well-formed, ids unique per
    /// guild, one counter row per guild, and no case id above its
    /// guild's high-water mark.
    pub open spec fn wf(&self) -> bool {
        &&& wf_seq(self@)
        &&& counters_wf(self.spec_counters())
        &&& cases_bounded(self@, self.spec_counters())
    }

    /// An empty store.
    pub fn new() -> (r: Self)
        ensures
            r@ == Seq::<Case>::empty(),
            r.wf(),
            forall|g: u64| r.last_issued(g) == 0,
    {
        CaseStore { cases: Vec::new(), counters: Vec::new() }
    }

    /// How many cases the store holds, over all guilds.
    pub fn len(&self) -> (r: usize)
        ensures
            r == self@.len(),
    {
        self.cases.len()
    }

    /// The counter row of the guild, if the guild was ever issued an id.
    fn find_counter(&self, guild_id: u64) -> (r: Option<usize>)
        ensures
            r matches Some(i) ==> i < self.spec_counters().len() && self.spec_counters()[
                i as int
            ].guild_id == guild_id && counter_value(self.spec_counters(), guild_id)
                == self.spec_counters()[i as int].last_id,
            r is None ==> counter_value(self.spec_counters(), guild_id) == 0 && (forall|i: int|
                0 <= i < self.spec_counters().len() ==> (#[trigger] self.spec_counters()[
                    i
                ]).guild_id != guild_id),
    {
        let ghost cs = self.spec_counters();
        let mut i: usize = 0;
        proof {
            assert(cs.skip(0) =~= cs);
        }
        while i < self.counters.len()
            invariant
                i <= self.counters@.len(),
                cs == self.counters@,
                counter_value(cs, guild_id) == counter_value(cs.skip(i as int), guild_id),
                forall|k: int| 0 <= k < i ==> (#[trigger] cs[k]).guild_id != guild_id,
            decreases self.counters@.len() - i,
        {
            proof {
                assert(cs.skip(i as int).len() > 0);
                assert(cs.skip(i as int)[0] == cs[i as int]);
                assert(cs.skip(i as int).drop_first() =~= cs.skip(i as int + 1));
            }
            if self.counters[i].guild_id == guild_id {
                return Some(i);
            }
            i = i + 1;
        }
        proof {
            assert(cs.skip(cs.len() as int).len() == 0);
        }
        None
    }

    /// The next case id the guild will be issued: one past its
    /// high-water mark, 1 for a guild never issued an id.
    pub fn generate_case_id(&self, guild_id: u64) -> (r: u32)
        requires
            self.last_issued(guild_id) < u32::MAX,
        ensures
            r == self.last_issued(guild_id) + 1,
    {
        match self.find_counter(guild_id) {
            Some(i) => self.counters[i].last_id + 1,
            None => 1,
        }
    }

    /// Whether the guild can still be handed a fresh case id. Callers
    /// outside the proofs test this before creating a case.
    pub fn can_allocate(&self, guild_id: u64) -> (r: bool)
        ensures
            r == (self.last_issued(guild_id) < u32::MAX),
    {
        match self.find_counter(guild_id) {
            Some(i) => self.counters[i].last_id < u32::MAX,
            None => true,
        }
    }

    /// Allocates the guild's next case id and inserts the record in one
    /// exclusive step, so two overlapping calls can never share an id.
    #[allow(clippy::too_many_arguments)]
    pub fn create_case(
        &mut self,
        guild_id: u64,
        user_id: u64,
        moderator_id: u64,
        case_type: CaseType,
        reason: Option<String>,
        created_at: u64,
        end_date: Option<u64>,
        points: Option<u32>,
    ) -> (r: u32)
        requires
            old(self).wf(),
            old(self).last_issued(guild_id) < u32::MAX,
            end_date matches Some(e) ==> e > created_at,
            case_type == CaseType::Mute ==> end_date is Some,
            points is Some ==> case_type == CaseType::Warn,
        ensures
            final(self).wf(),
            r == old(self).last_issued(guild_id) + 1,
            final(self)@ == old(self)@.push(
                (Case {
                    guild_id,
                    user_id,
                    moderator_id,
                    case_id: r,
                    case_type,
                    reason,
                    created_at,
                    end_date,
                    points,
                }),
            ),
            final(self).last_issued(guild_id) == r,
            forall|g: u64| g != guild_id ==> final(self).last_issued(g) == old(self).last_issued(g),
    {
        let ghost cs0 = self.spec_counters();
        let found = self.find_counter(guild_id);
        let case_id: u32 = match found {
            Some(i) => {
                let next = self.counters[i].last_id + 1;
                let updated = GuildCounter { guild_id, last_id: next };
                proof {
                    lemma_counter_value_update(cs0, i as int, next);
                }
                self.counters.set(i, updated);
                next
            },
            None => {
                let fresh = GuildCounter { guild_id, last_id: 1 };
                proof {
                    lemma_counter_value_push(cs0, fresh);
                }
                self.counters.push(fresh);
                1
            },
        };
        let c = Case {
            guild_id,
            user_id,
            moderator_id,
            case_id,
            case_type,
            reason,
            created_at,
            end_date,
            points,
        };
        let ghost s0 = self@;
        self.cases.push(c);
        proof {
            let cs1 = self.spec_counters();
            assert(counter_value(cs1, guild_id) == case_id);
            assert(forall|g: u64| g != guild_id ==> counter_value(cs1, g) == counter_value(cs0, g));
            assert forall|i: int, j: int|
                #![trigger self@[i].guild_id, self@[j].guild_id]
                0 <= i < self@.len() && 0 <= j < self@.len() && i != j && self@[i].guild_id
                    == self@[j].guild_id implies self@[i].case_id != self@[j].case_id by {
                if i < s0.len() && j < s0.len() {
                    assert(self@[i] == s0[i] && self@[j] == s0[j]);
                } else if i == s0.len() {
                    assert(self@[j] == s0[j]);
                    assert(s0[j].case_id <= counter_value(cs0, s0[j].guild_id));
                } else {
                    assert(self@[i] == s0[i]);
                    assert(s0[i].case_id <= counter_value(cs0, s0[i].guild_id));
                }
            }
            assert forall|i: int|
                0 <= i < self@.len() implies (#[trigger] self@[i]).case_id <= counter_value(
                cs1,
                self@[i].guild_id,
            ) by {
                if i < s0.len() {
                    assert(self@[i] == s0[i]);
                    assert(s0[i].case_id <= counter_value(cs0, s0[i].guild_id));
                    if s0[i].guild_id == guild_id {
                        assert(counter_value(cs0, guild_id) == case_id - 1);
                    }
                }
            }
        }
        case_id
    }

    /// The first open, unexpired mute of the user in the guild, if any.
    pub fn find_active_mute(&self, guild_id: u64, user_id: u64, now: u64) -> (r: Option<u32>)
        ensures
            r is Some <==> exists|i: int|
                0 <= i < self@.len() && is_active_mute(#[trigger] self@[i], guild_id, user_id, now),
            r matches Some(id) ==> exists|i: int|
                0 <= i < self@.len() && is_active_mute(#[trigger] self@[i], guild_id, user_id, now)
                    && self@[i].case_id == id,
    {
        let mut i: usize = 0;
        while i < self.cases.len()
            invariant
                i <= self.cases@.len(),
                self@ == self.cases@,
                forall|k: int|
                    0 <= k < i ==> !is_active_mute(#[trigger] self@[k], guild_id, user_id, now),
            decreases self.cases@.len() - i,
        {
            let c = &self.cases[i];
            if c.guild_id == guild_id && c.user_id == user_id && matches!(c.case_type, CaseType::Mute) {
                match c.end_date {
                    Some(e) => {
                        if e > now {
                            return Some(c.case_id);
                        }
                    },
                    None => {},
                }
            }
            i = i + 1;
        }
        None
    }

    /// The user's outstanding warning points in the guild: the sum over
    /// all their warning cases still stored, saturating at the integer
    /// limit. Nothing is stored; the total is derived on demand.
    pub fn sum_warn_points(&self, guild_id: u64, user_id: u64) -> (r: u64)
        ensures
            total_warn_points(self@, guild_id, user_id) <= u64::MAX ==> r == total_warn_points(
                self@,
                guild_id,
                user_id,
            ),
            total_warn_points(self@, guild_id, user_id) > u64::MAX ==> r == u64::MAX,
    {
        let mut acc: u64 = 0;
        let mut i: usize = 0;
        while i < self.cases.len()
            invariant
                i <= self.cases@.len(),
                self@ == self.cases@,
                ({
                    let t = total_warn_points(self@.subrange(0, i as int), guild_id, user_id);
                    (t <= u64::MAX ==> acc == t) && (t > u64::MAX ==> acc == u64::MAX)
                }),
            decreases self.cases@.len() - i,
        {
            let c = &self.cases[i];
            proof {
                assert(self@.subrange(0, i as int + 1).drop_last() =~= self@.subrange(0, i as int));
                assert(self@.subrange(0, i as int + 1).last() == self@[i as int]);
                assert(total_warn_points(self@.subrange(0, i as int), guild_id, user_id) >= 0) by {
                    lemma_total_warn_points_nonneg(
                        self@.subrange(0, i as int),
                        guild_id,
                        user_id,
                    );
                }
            }
            if c.guild_id == guild_id && c.user_id == user_id && matches!(c.case_type, CaseType::Warn) {
                let p: u64 = match c.points {
                    Some(p) => p as u64,
                    None => 1,
                };
                if acc <= u64::MAX - p {
                    acc = acc + p;
                } else {
                    acc = u64::MAX;
                }
            }
            i = i + 1;
        }
        proof {
            assert(self@.subrange(0, self@.len() as int) =~= self@);
        }
        acc
    }

    /// All cases of the given kind whose end date lies strictly before `now`.
    pub fn expired_cases(&self, t: CaseType, now: u64) -> (r: Vec<Case>)
        ensures
            r@ == self@.filter(|c: Case| is_expired(c, t, now)),
    {
        let mut r: Vec<Case> = Vec::new();
        let mut i: usize = 0;
        proof {
            reveal(Seq::filter);
        }
        while i < self.cases.len()
            invariant
                i <= self.cases@.len(),
                self@ == self.cases@,
                r@ == self@.subrange(0, i as int).filter(|c: Case| is_expired(c, t, now)),
            decreases self.cases@.len() - i,
        {
            let c = &self.cases[i];
            proof {
                reveal(Seq::filter);
                assert(self@.subrange(0, i as int + 1).drop_last() =~= self@.subrange(0, i as int));
                assert(self@.subrange(0, i as int + 1).last() == self@[i as int]);
            }
            let expired = match c.end_date {
                Some(e) => e < now,
                None => false,
            };
            if expired && c.case_type == t {
                r.push(c.clone());
            }
            i = i + 1;
        }
        proof {
            assert(self@.subrange(0, self@.len() as int) =~= self@);
        }
        r
    }

    /// The guild's case with the given id, if stored: the first match,
    /// which under the store's invariant is the only one.
    pub fn case_by_id(&self, guild_id: u64, case_id: u32) -> (r: Option<Case>)
        ensures
            r == find_case(self@, guild_id, case_id),
    {
        let mut i: usize = 0;
        proof {
            assert(self@.skip(0) =~= self@);
        }
        while i < self.cases.len()
            invariant
                i <= self.cases@.len(),
                self@ == self.cases@,
                find_case(self@, guild_id, case_id) == find_case(
                    self@.skip(i as int),
                    guild_id,
                    case_id,
                ),
            decreases self.cases@.len() - i,
        {
            let c = &self.cases[i];
            proof {
                assert(self@.skip(i as int).len() > 0);
                assert(self@.skip(i as int)[0] == self@[i as int]);
                assert(self@.skip(i as int).drop_first() =~= self@.skip(i as int + 1));
            }
            if c.guild_id == guild_id && c.case_id == case_id {
                let found = c.clone();
                proof {
                    assert(self@[i as int] == found);
                }
                return Some(found);
            }
            i = i + 1;
        }
        proof {
            assert(self@.skip(self@.len() as int).len() == 0);
        }
        None
    }

    /// The guild's cases the filter selects, in store order — for a
    /// guild this is ascending creation order.
    pub fn list_cases(&self, guild_id: u64, f: CaseFilter) -> (r: Vec<Case>)
        ensures
            r@ == self@.filter(|c: Case| matches_filter(c, guild_id, f)),
    {
        let mut r: Vec<Case> = Vec::new();
        let mut i: usize = 0;
        proof {
            reveal(Seq::filter);
        }
        while i < self.cases.len()
            invariant
                i <= self.cases@.len(),
                self@ == self.cases@,
                r@ == self@.subrange(0, i as int).filter(|c: Case| matches_filter(c, guild_id, f)),
            decreases self.cases@.len() - i,
        {
            let c = &self.cases[i];
            proof {
                reveal(Seq::filter);
                assert(self@.subrange(0, i as int + 1).drop_last() =~= self@.subrange(0, i as int));
                assert(self@.subrange(0, i as int + 1).last() == self@[i as int]);
            }
            let selected: bool = c.guild_id == guild_id && match f {
                CaseFilter::All => true,
                CaseFilter::ByUser(u) => c.user_id == u,
                CaseFilter::ByModerator(m) => c.moderator_id == m,
                CaseFilter::ById(id) => c.case_id == id,
            };
            if selected {
                r.push(c.clone());
            }
            i = i + 1;
        }
        proof {
            assert(self@.subrange(0, self@.len() as int) =~= self@);
        }
        r
    }

    /// Deletes every case of the guild whose id is listed; other guilds'
    /// cases and unlisted ids stay untouched. Ids are never reallocated:
    /// the guild's maximum is defined over all ids ever assigned, so a
    /// later `create_case` still picks a fresh id.
    pub fn delete_cases(&mut self, guild_id: u64, ids: &Vec<u32>)
        requires
            old(self).wf(),
        ensures
            final(self).wf(),
            final(self)@ == old(self)@.filter(
                |c: Case| !(c.guild_id == guild_id && ids@.contains(c.case_id)),
            ),
            forall|g: u64| final(self).last_issued(g) == old(self).last_issued(g),
    {
        let ghost pred = |c: Case| !(c.guild_id == guild_id && ids@.contains(c.case_id));
        let mut kept: Vec<Case> = Vec::new();
        let mut i: usize = 0;
        proof {
            reveal(Seq::filter);
        }
        while i < self.cases.len()
            invariant
                i <= self.cases@.len(),
                self@ == self.cases@,
                self@ == old(self)@,
                self.spec_counters() == old(self).spec_counters(),
                old(self).wf(),
                pred == (|c: Case| !(c.guild_id == guild_id && ids@.contains(c.case_id))),
                kept@ == self@.subrange(0, i as int).filter(pred),
            decreases self.cases@.len() - i,
        {
            let c = &self.cases[i];
            proof {
                reveal(Seq::filter);
                assert(self@.subrange(0, i as int + 1).drop_last() =~= self@.subrange(0, i as int));
                assert(self@.subrange(0, i as int + 1).last() == self@[i as int]);
            }
            if !(c.guild_id == guild_id && contains_u32(ids, c.case_id)) {
                kept.push(c.clone());
            }
            i = i + 1;
        }
        proof {
            assert(self@.subrange(0, self@.len() as int) =~= self@);
            lemma_wf_filter(self@, pred);
            lemma_filter_from(self@, pred);
            let cs = self.spec_counters();
            let f = self@.filter(pred);
            assert forall|k: int|
                0 <= k < f.len() implies (#[trigger] f[k]).case_id <= counter_value(
                cs,
                f[k].guild_id,
            ) by {
                let o = choose|o: int| 0 <= o < self@.len() && #[trigger] self@[o] == f[k];
                assert(self@[o].case_id <= counter_value(cs, self@[o].guild_id));
            }
        }
        self.cases = kept;
    }

    /// Deletes one case of the guild by id.
    pub fn delete_case(&mut self, guild_id: u64, case_id: u32)
        requires
            old(self).wf(),
        ensures
            final(self).wf(),
            final(self)@ == old(self)@.filter(
                |c: Case| !(c.guild_id == guild_id && c.case_id == case_id),
            ),
            forall|g: u64| final(self).last_issued(g) == old(self).last_issued(g),
    {
        let ghost pred = |c: Case| !(c.guild_id == guild_id && c.case_id == case_id);
        let mut kept: Vec<Case> = Vec::new();
        let mut i: usize = 0;
        proof {
            reveal(Seq::filter);
        }
        while i < self.cases.len()
            invariant
                i <= self.cases@.len(),
                self@ == self.cases@,
                self@ == old(self)@,
                self.spec_counters() == old(self).spec_counters(),
                old(self).wf(),
                pred == (|c: Case| !(c.guild_id == guild_id && c.case_id == case_id)),
                kept@ == self@.subrange(0, i as int).filter(pred),
            decreases self.cases@.len() - i,
        {
            let c = &self.cases[i];
            proof {
                reveal(Seq::filter);
                assert(self@.subrange(0, i as int + 1).drop_last() =~= self@.subrange(0, i as int));
                assert(self@.subrange(0, i as int + 1).last() == self@[i as int]);
            }
            if !(c.guild_id == guild_id && c.case_id == case_id) {
                kept.push(c.clone());
            }
            i = i + 1;
        }
        proof {
            assert(self@.subrange(0, self@.len() as int) =~= self@);
            lemma_wf_filter(self@, pred);
            lemma_filter_from(self@, pred);
            let cs = self.spec_counters();
            let f = self@.filter(pred);
            assert forall|k: int|
                0 <= k < f.len() implies (#[trigger] f[k]).case_id <= counter_value(
                cs,
                f[k].guild_id,
            ) by {
                let o = choose|o: int| 0 <= o < self@.len() && #[trigger] self@[o] == f[k];
                assert(self@[o].case_id <= counter_value(cs, self@[o].guild_id));
            }
        }
        self.cases = kept;
    }
}

/// Law: case-id allocation is sequential and gapless. A guild whose
/// case ids are exactly 1..n and whose high-water mark is n hands the
/// next case the id n+1, and its ids are then exactly 1..n+1 — no
/// duplicates, no gaps. Since `create_case` advances the mark and
/// inserts in one exclusive call, any number of actions against one
/// guild, in whatever interleaving their callers run, produce ids 1..N.
pub proof fn lemma_sequential_allocation(s: Seq<Case>, guild_id: u64, n: int, last: int, c: Case)
    requires
        n >= 0,
        guild_case_ids(s, guild_id) =~= Set::new(|x: int| 1 <= x <= n),
        last == n,
        c.guild_id == guild_id,
        c.case_id == last + 1,
    ensures
        c.case_id == n + 1,
        guild_case_ids(s.push(c), guild_id) =~= Set::new(|x: int| 1 <= x <= n + 1),
{
    let s2 = s.push(c);
    assert forall|x: int| guild_case_ids(s2, guild_id).contains(x) implies 1 <= x <= n + 1 by {
        let i = choose|i: int|
            0 <= i < s2.len() && (#[trigger] s2[i]).guild_id == guild_id && s2[i].case_id == x;
        if i < s.len() {
            assert(s[i] == s2[i]);
            assert(guild_case_ids(s, guild_id).contains(x));
        } else {
            assert(s2[i] == c);
        }
    }
    assert forall|x: int| 1 <= x <= n + 1 implies guild_case_ids(s2, guild_id).contains(x) by {
        if x <= n {
            assert(guild_case_ids(s, guild_id).contains(x));
            let i = choose|i: int|
                0 <= i < s.len() && (#[trigger] s[i]).guild_id == guild_id && s[i].case_id == x;
            assert(s2[i] == s[i]);
        } else {
            assert(s2[s.len() as int] == c);
        }
    }
}

/// The outstanding-points total is never negative.
pub proof fn lemma_total_warn_points_nonneg(s: Seq<Case>, guild_id: u64, user_id: u64)
    ensures
        total_warn_points(s, guild_id, user_id) >= 0,
    decreases s.len(),
{
    if s.len() > 0 {
        lemma_total_warn_points_nonneg(s.drop_last(), guild_id, user_id);
    }
}

} // verus!

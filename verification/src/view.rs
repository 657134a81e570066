//! Case viewing: filter validation, grouping for display, pagination.
//!
//! A listing request may name a user, a case id, a case kind or a
//! moderator, but the filters are mutually exclusive: naming a case id
//! together with a user, kind or moderator — or a moderator together
//! with a user or kind — is a usage error refused before any query.

use vstd::prelude::*;
use crate::case::{Case, CaseType};
use crate::store::{CaseFilter, contains_u64};

verus! {

/// Which forbidden filter combination a listing request holds.
#[derive(Clone, Copy, Debug, PartialEq, Eq, Structural)]
pub enum ViewError {
    UserAndId,
    IdAndKind,
    IdAndModerator,
    ModeratorAndUser,
    ModeratorAndKind,
}

/// The filter a request's options select, or the usage error; checked
/// in the same order the errors are reported to the caller.
pub open spec fn spec_select_filter(
    user: Option<u64>,
    case_id: Option<u32>,
    kind: Option<CaseType>,
    moderator: Option<u64>,
) -> Result<CaseFilter, ViewError> {
    if case_id is Some {
        if user is Some {
            Err(ViewError::UserAndId)
        } else if kind is Some {
            Err(ViewError::IdAndKind)
        } else if moderator is Some {
            Err(ViewError::IdAndModerator)
        } else {
            Ok(CaseFilter::ById(case_id->0))
        }
    } else if moderator is Some {
        if user is Some {
            Err(ViewError::ModeratorAndUser)
        } else if kind is Some {
            Err(ViewError::ModeratorAndKind)
        } else {
            Ok(CaseFilter::ByModerator(moderator->0))
        }
    } else if user is Some {
        Ok(CaseFilter::ByUser(user->0))
    } else {
        Ok(CaseFilter::All)
    }
}

/// Validates the mutually exclusive listing filters.
pub fn select_case_filter(
    user: Option<u64>,
    case_id: Option<u32>,
    kind: Option<CaseType>,
    moderator: Option<u64>,
) -> (r: Result<CaseFilter, ViewError>)
    ensures
        r == spec_select_filter(user, case_id, kind, moderator),
{
    if let Some(id) = case_id {
        if user.is_some() {
            Err(ViewError::UserAndId)
        } else if kind.is_some() {
            Err(ViewError::IdAndKind)
        } else if moderator.is_some() {
            Err(ViewError::IdAndModerator)
        } else {
            Ok(CaseFilter::ById(id))
        }
    } else if let Some(m) = moderator {
        if user.is_some() {
            Err(ViewError::ModeratorAndUser)
        } else if kind.is_some() {
            Err(ViewError::ModeratorAndKind)
        } else {
            Ok(CaseFilter::ByModerator(m))
        }
    } else if let Some(u) = user {
        Ok(CaseFilter::ByUser(u))
    } else {
        Ok(CaseFilter::All)
    }
}

/// How many cases one page of the listing shows.
pub const CASES_PER_PAGE: usize = 10;

/// How many pages the listing needs: the total divided by the page
/// size, rounded up.
pub fn page_count(total: usize) -> (r: usize)
    requires
        total <= usize::MAX - 9,
    ensures
        r == (total + CASES_PER_PAGE - 1) / (CASES_PER_PAGE as int),
        r * CASES_PER_PAGE >= total,
        total > 0 ==> (r - 1) * CASES_PER_PAGE < total,
{
    let r = (total + (CASES_PER_PAGE - 1)) / CASES_PER_PAGE;
    proof {
        assert(r * CASES_PER_PAGE >= total && (total > 0 ==> (r - 1) * CASES_PER_PAGE < total))
            by (nonlinear_arith)
            requires
                r == (total + CASES_PER_PAGE - 1) / (CASES_PER_PAGE as int),
                CASES_PER_PAGE == 10,
                total >= 0,
        ;
    }
    r
}

/// The slice of the listing one page shows: cases with global index
/// from `page * CASES_PER_PAGE` up to the next page or the end.
pub fn page_window(total: usize, page: usize) -> (r: (usize, usize))
    requires
        page * CASES_PER_PAGE <= usize::MAX,
    ensures
        r.0 == if page * CASES_PER_PAGE <= total {
            page * CASES_PER_PAGE
        } else {
            total as int
        },
        r.1 == if r.0 + CASES_PER_PAGE <= total {
            r.0 + CASES_PER_PAGE
        } else {
            total as int
        },
        r.0 <= r.1 <= total,
{
    let start = if page <= (usize::MAX / CASES_PER_PAGE) {
        let s = page * CASES_PER_PAGE;
        if s <= total {
            s
        } else {
            total
        }
    } else {
        proof {
            assert(false) by (nonlinear_arith)
                requires
                    page * 10 <= usize::MAX,
                    page > usize::MAX / 10,
            ;
        }
        total
    };
    let end = if total - start >= CASES_PER_PAGE {
        start + CASES_PER_PAGE
    } else {
        total
    };
    (start, end)
}

/// The page the back button moves to: one back, stopping at the first.
pub fn prev_page(page: usize) -> (r: usize)
    ensures
        r == if page == 0 {
            0
        } else {
            page - 1
        },
{
    if page == 0 {
        0
    } else {
        page - 1
    }
}

/// The page the forward button moves to: one forward, stopping at the
/// last page.
pub fn next_page(page: usize, pages: usize) -> (r: usize)
    ensures
        r == if pages == 0 {
            0
        } else if page + 1 < pages {
            page + 1
        } else {
            (pages - 1) as int
        },
{
    if pages == 0 {
        0
    } else if page < pages - 1 {
        page + 1
    } else {
        pages - 1
    }
}

/// One user's cases, as one section of the listing.
pub struct UserCases {
    pub user_id: u64,
    pub cases: Vec<Case>,
}

/// The distinct users of the cases, in order of first appearance.
pub open spec fn case_users(cs: Seq<Case>) -> Seq<u64>
    decreases cs.len(),
{
    if cs.len() == 0 {
        Seq::empty()
    } else {
        let rest = case_users(cs.drop_last());
        if rest.contains(cs.last().user_id) {
            rest
        } else {
            rest.push(cs.last().user_id)
        }
    }
}

/// Groups the listed cases by user, users in order of first appearance;
/// each section holds that user's cases in listing order.
pub fn group_cases_by_user(cs: &Vec<Case>) -> (r: Vec<UserCases>)
    ensures
        r@.len() == case_users(cs@).len(),
        forall|j: int| 0 <= j < r@.len() ==> (#[trigger] r@[j]).user_id == case_users(cs@)[j],
        forall|j: int|
            0 <= j < r@.len() ==> (#[trigger] r@[j]).cases@ == cs@.filter(
                |c: Case| c.user_id == r@[j].user_id,
            ),
{
    let users = distinct_case_users(cs);
    let mut r: Vec<UserCases> = Vec::new();
    let mut i: usize = 0;
    while i < users.len()
        invariant
            i <= users@.len(),
            users@ == case_users(cs@),
            r@.len() == i,
            forall|j: int| 0 <= j < i ==> (#[trigger] r@[j]).user_id == users@[j],
            forall|j: int|
                0 <= j < i ==> (#[trigger] r@[j]).cases@ == cs@.filter(
                    |c: Case| c.user_id == r@[j].user_id,
                ),
        decreases users@.len() - i,
    {
        let u = users[i];
        let cases = cases_of_user(cs, u);
        r.push(UserCases { user_id: u, cases });
        i = i + 1;
    }
    r
}

/// The cases of one user, in listing order.
fn cases_of_user(cs: &Vec<Case>, u: u64) -> (r: Vec<Case>)
    ensures
        r@ == cs@.filter(|c: Case| c.user_id == u),
{
    let mut r: Vec<Case> = Vec::new();
    let mut i: usize = 0;
    proof {
        reveal(Seq::filter);
    }
    while i < cs.len()
        invariant
            i <= cs@.len(),
            r@ == cs@.subrange(0, i as int).filter(|c: Case| c.user_id == u),
        decreases cs@.len() - i,
    {
        proof {
            reveal(Seq::filter);
            assert(cs@.subrange(0, i as int + 1).drop_last() =~= cs@.subrange(0, i as int));
            assert(cs@.subrange(0, i as int + 1).last() == cs@[i as int]);
        }
        let c = &cs[i];
        if c.user_id == u {
            r.push(c.clone());
        }
        i = i + 1;
    }
    proof {
        assert(cs@.subrange(0, cs@.len() as int) =~= cs@);
    }
    r
}

/// The distinct users of the cases, in order of first appearance.
fn distinct_case_users(cs: &Vec<Case>) -> (r: Vec<u64>)
    ensures
        r@ == case_users(cs@),
{
    let mut r: Vec<u64> = Vec::new();
    let mut i: usize = 0;
    while i < cs.len()
        invariant
            i <= cs@.len(),
            r@ == case_users(cs@.subrange(0, i as int)),
        decreases cs@.len() - i,
    {
        proof {
            assert(cs@.subrange(0, i as int + 1).drop_last() =~= cs@.subrange(0, i as int));
            assert(cs@.subrange(0, i as int + 1).last() == cs@[i as int]);
        }
        let u = cs[i].user_id;
        if !contains_u64(&r, u) {
            r.push(u);
        }
        i = i + 1;
    }
    proof {
        assert(cs@.subrange(0, cs@.len() as int) =~= cs@);
    }
    r
}

} // verus!

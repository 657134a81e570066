//! The action executors: one moderation action end to end.
//!
//! Every action follows one template: evaluate policy (and per-action
//! guards) first — nothing is mutated or persisted on a denial; then the
//! caller performs the platform mutation; then the case is persisted with
//! the guild's next id and the log router decides delivery. The template
//! is split accordingly: a `prepare_*` function decides everything up to
//! the platform call, a `commit_*` function records the case and decides
//! the log delivery once the platform call succeeded. A failed platform
//! call leaves no orphan case, because `commit_*` is simply never called.
//! Warnings touch no platform state, so `execute_warn` runs the whole
//! template in one call.

use vstd::prelude::*;
use crate::case::{Case, CaseType};
use crate::log_types::LogType;
use crate::logs::spec_route;
use crate::logs::route;
use crate::policy::{PolicyContext, DenyReason, spec_evaluate, evaluate};
use crate::settings::{GuildSettings, MAX_WARN_EXPIRE_DAYS};
use crate::store::{CaseStore, is_active_mute, total_warn_points};
use crate::time::{
    spec_parse_duration,
    parse_duration,
    MIN_ACTION_DURATION_SECS,
    MAX_MUTE_DURATION_SECS,
};

verus! {

/// What a ban decides before the platform acts: the end date, or none
/// for a permanent ban.
pub open spec fn spec_prepare_ban(ctx: PolicyContext, dur: Option<Seq<char>>, now: u64) -> Result<
    Option<u64>,
    DenyReason,
> {
    match spec_evaluate(ctx, true) {
        Some(d) => Err(d),
        None => match dur {
            None => Ok(None),
            Some(ds) => match spec_parse_duration(ds) {
                None => Err(DenyReason::InvalidDurationFormat),
                Some(secs) => if secs < MIN_ACTION_DURATION_SECS {
                    Err(DenyReason::DurationTooShort)
                } else if now + secs > u64::MAX {
                    Err(DenyReason::DurationTooLong)
                } else {
                    Ok(Some((now + secs) as u64))
                },
            },
        },
    }
}

/// Validates a ban up to the platform call. `Ok` carries the end date
/// (none for a permanent ban); `Err` names the denial, and nothing may
/// be mutated or persisted.
pub fn prepare_ban(ctx: &PolicyContext, duration: &Option<String>, now: u64) -> (r: Result<
    Option<u64>,
    DenyReason,
>)
    ensures
        r == spec_prepare_ban(*ctx, duration.deep_view(), now),
        r matches Ok(Some(e)) ==> e > now,
{
    if let Some(d) = evaluate(ctx, true) {
        return Err(d);
    }
    match duration {
        None => Ok(None),
        Some(ds) => {
            match parse_duration(ds.as_str()) {
                None => Err(DenyReason::InvalidDurationFormat),
                Some(secs) => {
                    if secs < MIN_ACTION_DURATION_SECS {
                        Err(DenyReason::DurationTooShort)
                    } else if secs > u64::MAX - now {
                        Err(DenyReason::DurationTooLong)
                    } else {
                        Ok(Some(now + secs))
                    }
                },
            }
        },
    }
}

/// Validates a kick up to the platform call.
pub fn prepare_kick(ctx: &PolicyContext) -> (r: Result<(), DenyReason>)
    ensures
        r matches Err(d) ==> spec_evaluate(*ctx, true) == Some(d),
        r is Ok <==> spec_evaluate(*ctx, true) is None,
{
    match evaluate(ctx, true) {
        Some(d) => Err(d),
        None => Ok(()),
    }
}

/// What a mute decides before the platform acts: its end date.
pub open spec fn spec_prepare_mute(
    ctx: PolicyContext,
    cases: Seq<Case>,
    guild_id: u64,
    dur: Seq<char>,
    now: u64,
) -> Result<u64, DenyReason> {
    match spec_evaluate(ctx, true) {
        Some(d) => Err(d),
        None => match spec_parse_duration(dur) {
            None => Err(DenyReason::InvalidDurationFormat),
            Some(secs) => if secs < MIN_ACTION_DURATION_SECS {
                Err(DenyReason::DurationTooShort)
            } else if secs > MAX_MUTE_DURATION_SECS {
                Err(DenyReason::DurationTooLong)
            } else if now + secs > u64::MAX {
                Err(DenyReason::DurationTooLong)
            } else if exists|i: int|
                0 <= i < cases.len() && is_active_mute(#[trigger] cases[i], guild_id, ctx.target_id, now) {
                Err(DenyReason::AlreadyMuted)
            } else {
                Ok((now + secs) as u64)
            },
        },
    }
}

/// Validates a mute up to the platform call: hierarchy checks, the
/// duration grammar with its 60-second minimum and 28-day maximum, and
/// the duplicate-mute guard against the case store. `Ok` carries the end
/// date of the timed communication disable.
pub fn prepare_mute(
    ctx: &PolicyContext,
    store: &CaseStore,
    guild_id: u64,
    duration: &str,
    now: u64,
) -> (r: Result<u64, DenyReason>)
    ensures
        r == spec_prepare_mute(*ctx, store@, guild_id, duration@, now),
        r matches Ok(e) ==> e > now,
{
    if let Some(d) = evaluate(ctx, true) {
        return Err(d);
    }
    match parse_duration(duration) {
        None => Err(DenyReason::InvalidDurationFormat),
        Some(secs) => {
            if secs < MIN_ACTION_DURATION_SECS {
                Err(DenyReason::DurationTooShort)
            } else if secs > MAX_MUTE_DURATION_SECS {
                Err(DenyReason::DurationTooLong)
            } else if secs > u64::MAX - now {
                Err(DenyReason::DurationTooLong)
            } else if store.find_active_mute(guild_id, ctx.target_id, now).is_some() {
                Err(DenyReason::AlreadyMuted)
            } else {
                Ok(now + secs)
            }
        },
    }
}

/// Law: a mute aimed at a user who already has an open, unexpired mute
/// case in the guild is denied whatever duration was requested.
pub proof fn lemma_active_mute_always_denied(
    ctx: PolicyContext,
    cases: Seq<Case>,
    guild_id: u64,
    dur: Seq<char>,
    now: u64,
)
    requires
        exists|i: int|
            0 <= i < cases.len() && is_active_mute(#[trigger] cases[i], guild_id, ctx.target_id, now),
    ensures
        spec_prepare_mute(ctx, cases, guild_id, dur, now) is Err,
{
}

/// What an unmute decides before the platform acts.
pub open spec fn spec_prepare_unmute(
    ctx: PolicyContext,
    cases: Seq<Case>,
    guild_id: u64,
    now: u64,
) -> Result<(), DenyReason> {
    match spec_evaluate(ctx, true) {
        Some(d) => Err(d),
        None => if exists|i: int|
            0 <= i < cases.len() && is_active_mute(#[trigger] cases[i], guild_id, ctx.target_id, now) {
            Ok(())
        } else {
            Err(DenyReason::NotMuted)
        },
    }
}

/// Validates an unmute up to the platform call: hierarchy checks, and
/// the target must actually be under an open, unexpired mute.
pub fn prepare_unmute(ctx: &PolicyContext, store: &CaseStore, guild_id: u64, now: u64) -> (r:
    Result<(), DenyReason>)
    ensures
        r == spec_prepare_unmute(*ctx, store@, guild_id, now),
{
    if let Some(d) = evaluate(ctx, true) {
        return Err(d);
    }
    if store.find_active_mute(guild_id, ctx.target_id, now).is_some() {
        Ok(())
    } else {
        Err(DenyReason::NotMuted)
    }
}

/// What `commit_ban` and its siblings decided: the persisted case's id
/// and where the audit entry goes (nowhere when delivery is off).
#[derive(Clone, Copy, Debug, PartialEq, Eq, Structural)]
pub struct Committed {
    pub case_id: u32,
    pub log_channel: Option<u64>,
}

/// Persists a ban case after the platform ban succeeded, and decides
/// the audit delivery.
pub fn commit_ban(
    store: &mut CaseStore,
    settings: &GuildSettings,
    ctx: &PolicyContext,
    guild_id: u64,
    reason: Option<String>,
    end_date: Option<u64>,
    now: u64,
) -> (r: Committed)
    requires
        old(store).wf(),
        old(store).last_issued(guild_id) < u32::MAX,
        end_date matches Some(e) ==> e > now,
    ensures
        final(store).wf(),
        r.case_id == old(store).last_issued(guild_id) + 1,
        final(store)@ == old(store)@.push(
            (Case {
                guild_id,
                user_id: ctx.target_id,
                moderator_id: ctx.actor_id,
                case_id: r.case_id,
                case_type: CaseType::Ban,
                reason,
                created_at: now,
                end_date,
                points: None,
            }),
        ),
        r.log_channel == spec_route(*settings, LogType::Ban),
{
    let case_id = store.create_case(
        guild_id,
        ctx.target_id,
        ctx.actor_id,
        CaseType::Ban,
        reason,
        now,
        end_date,
        None,
    );
    let log_channel = route(settings, LogType::Ban);
    Committed { case_id, log_channel }
}

/// Persists a kick case after the platform kick succeeded, and decides
/// the audit delivery. A kick has no end date.
pub fn commit_kick(
    store: &mut CaseStore,
    settings: &GuildSettings,
    ctx: &PolicyContext,
    guild_id: u64,
    reason: Option<String>,
    now: u64,
) -> (r: Committed)
    requires
        old(store).wf(),
        old(store).last_issued(guild_id) < u32::MAX,
    ensures
        final(store).wf(),
        r.case_id == old(store).last_issued(guild_id) + 1,
        final(store)@ == old(store)@.push(
            (Case {
                guild_id,
                user_id: ctx.target_id,
                moderator_id: ctx.actor_id,
                case_id: r.case_id,
                case_type: CaseType::Kick,
                reason,
                created_at: now,
                end_date: None,
                points: None,
            }),
        ),
        r.log_channel == spec_route(*settings, LogType::Kick),
{
    let case_id = store.create_case(
        guild_id,
        ctx.target_id,
        ctx.actor_id,
        CaseType::Kick,
        reason,
        now,
        None,
        None,
    );
    let log_channel = route(settings, LogType::Kick);
    Committed { case_id, log_channel }
}

/// Persists a mute case after the timed communication disable succeeded,
/// and decides the audit delivery. A mute is always time-bounded.
pub fn commit_mute(
    store: &mut CaseStore,
    settings: &GuildSettings,
    ctx: &PolicyContext,
    guild_id: u64,
    reason: Option<String>,
    end_date: u64,
    now: u64,
) -> (r: Committed)
    requires
        old(store).wf(),
        old(store).last_issued(guild_id) < u32::MAX,
        end_date > now,
    ensures
        final(store).wf(),
        r.case_id == old(store).last_issued(guild_id) + 1,
        final(store)@ == old(store)@.push(
            (Case {
                guild_id,
                user_id: ctx.target_id,
                moderator_id: ctx.actor_id,
                case_id: r.case_id,
                case_type: CaseType::Mute,
                reason,
                created_at: now,
                end_date: Some(end_date),
                points: None,
            }),
        ),
        r.log_channel == spec_route(*settings, LogType::Mute),
{
    let case_id = store.create_case(
        guild_id,
        ctx.target_id,
        ctx.actor_id,
        CaseType::Mute,
        reason,
        now,
        Some(end_date),
        None,
    );
    let log_channel = route(settings, LogType::Mute);
    Committed { case_id, log_channel }
}

/// What a completed warning reports back: the fresh case, its end date,
/// the user's outstanding point total, and the audit delivery decision.
pub struct WarnOutcome {
    pub case_id: u32,
    pub end_date: Option<u64>,
    pub total_points: u64,
    pub log_channel: Option<u64>,
}

/// Executes a warning end to end: policy first (a denial changes
/// nothing), then the case is persisted with the guild's next id, the
/// user's outstanding points are recomputed from the stored cases — the
/// total is derived, never stored — and the audit delivery is decided.
/// An expiring warning ends `warn_expire_time` days from now.
pub fn execute_warn(
    store: &mut CaseStore,
    settings: &GuildSettings,
    ctx: &PolicyContext,
    guild_id: u64,
    points: u32,
    reason: Option<String>,
    expire: bool,
    now: u64,
) -> (r: Result<WarnOutcome, DenyReason>)
    requires
        old(store).wf(),
        settings.wf(),
        old(store).last_issued(guild_id) < u32::MAX,
        1 <= points <= 100,
        now + MAX_WARN_EXPIRE_DAYS * 86400 <= u64::MAX,
    ensures
        r matches Err(d) ==> spec_evaluate(*ctx, false) == Some(d) && final(store)@ == old(
            store,
        )@,
        r is Ok <==> spec_evaluate(*ctx, false) is None,
        r matches Ok(out) ==> {
            &&& out.end_date == if expire {
                Some((now + settings.warn_expire_time * 86400) as u64)
            } else {
                None::<u64>
            }
            &&& out.case_id == old(store).last_issued(guild_id) + 1
            &&& final(store)@ == old(store)@.push(
                (Case {
                    guild_id,
                    user_id: ctx.target_id,
                    moderator_id: ctx.actor_id,
                    case_id: out.case_id,
                    case_type: CaseType::Warn,
                    reason,
                    created_at: now,
                    end_date: out.end_date,
                    points: Some(points),
                }),
            )
            &&& total_warn_points(final(store)@, guild_id, ctx.target_id) <= u64::MAX
                ==> out.total_points == total_warn_points(final(store)@, guild_id, ctx.target_id)
            &&& total_warn_points(final(store)@, guild_id, ctx.target_id) > u64::MAX
                ==> out.total_points == u64::MAX
            &&& out.log_channel == spec_route(*settings, LogType::Warn)
        },
        final(store).wf(),
{
    if let Some(d) = evaluate(ctx, false) {
        return Err(d);
    }
    let end_date: Option<u64> = if expire {
        proof {
            assert(settings.warn_expire_time * 86400 <= MAX_WARN_EXPIRE_DAYS * 86400)
                by (nonlinear_arith)
                requires
                    settings.warn_expire_time <= MAX_WARN_EXPIRE_DAYS,
            ;
            assert(settings.warn_expire_time * 86400 >= 3 * 86400) by (nonlinear_arith)
                requires
                    settings.warn_expire_time >= 3,
            ;
        }
        Some(now + settings.warn_expire_time * 86400)
    } else {
        None
    };
    let case_id = store.create_case(
        guild_id,
        ctx.target_id,
        ctx.actor_id,
        CaseType::Warn,
        reason,
        now,
        end_date,
        Some(points),
    );
    let total_points = store.sum_warn_points(guild_id, ctx.target_id);
    let log_channel = route(settings, LogType::Warn);
    Ok(WarnOutcome { case_id, end_date, total_points, log_channel })
}

} // verus!

//! The policy evaluator: role-hierarchy and self/owner/admin/bot guards
//! that run before any moderation action executes.
//!
//! Evaluation is pure: it reads role and permission data that the caller
//! already fetched, and either allows the action or names the first
//! failing check. No state changes before an action is allowed.

use vstd::prelude::*;

verus! {

/// Role and identity facts about one actor/target pair, as fetched from
/// the platform before evaluation.
#[derive(Clone, Copy, Debug, PartialEq, Eq, Structural)]
pub struct PolicyContext {
    /// The moderator invoking the action.
    pub actor_id: u64,
    /// The member the action is aimed at.
    pub target_id: u64,
    /// The guild owner.
    pub owner_id: u64,
    /// Whether the target is a bot account.
    pub target_is_bot: bool,
    /// Whether the target holds administrator-equivalent privilege.
    pub target_is_admin: bool,
    /// Highest role position of the actor (0 when the actor has no role).
    pub actor_role_position: i64,
    /// Highest role position of the target.
    pub target_role_position: i64,
    /// Highest role position of this service's own member.
    pub bot_role_position: i64,
}

/// Why an action was refused before anything was mutated or persisted.
#[derive(Clone, Copy, Debug, PartialEq, Eq, Structural)]
pub enum DenyReason {
    /// The target is a bot account.
    TargetBot,
    /// The actor aimed the action at themselves.
    TargetSelf,
    /// The target owns the guild.
    TargetOwner,
    /// The target holds administrator-equivalent privilege.
    TargetAdmin,
    /// This service's own role does not outrank the target.
    BotRankTooLow,
    /// The actor's role does not outrank the target and the actor does
    /// not own the guild.
    ActorRankTooLow,
    /// The requested duration string does not parse.
    InvalidDurationFormat,
    /// The requested duration is under the 60-second minimum.
    DurationTooShort,
    /// The requested duration exceeds the action's maximum, or its end
    /// date does not fit the time domain.
    DurationTooLong,
    /// The target is already under an open, unexpired mute case.
    AlreadyMuted,
    /// The target has no open, unexpired mute case to lift.
    NotMuted,
}

/// The checks, in order; the first failing check names the denial.
/// `needs_bot_rank` is false for actions that the platform performs
/// without a role-based mutation, such as a warning.
pub open spec fn spec_evaluate(ctx: PolicyContext, needs_bot_rank: bool) -> Option<DenyReason> {
    if ctx.target_is_bot {
        Some(DenyReason::TargetBot)
    } else if ctx.target_id == ctx.actor_id {
        Some(DenyReason::TargetSelf)
    } else if ctx.target_id == ctx.owner_id {
        Some(DenyReason::TargetOwner)
    } else if ctx.target_is_admin {
        Some(DenyReason::TargetAdmin)
    } else if needs_bot_rank && ctx.target_role_position >= ctx.bot_role_position {
        Some(DenyReason::BotRankTooLow)
    } else if ctx.actor_id != ctx.owner_id && ctx.target_role_position
        >= ctx.actor_role_position {
        Some(DenyReason::ActorRankTooLow)
    } else {
        None
    }
}

/// Runs the hierarchy checks; `None` allows the action, `Some` names the
/// first failing check. Nothing has been mutated either way.
pub fn evaluate(ctx: &PolicyContext, needs_bot_rank: bool) -> (r: Option<DenyReason>)
    ensures
        r == spec_evaluate(*ctx, needs_bot_rank),
{
    if ctx.target_is_bot {
        Some(DenyReason::TargetBot)
    } else if ctx.target_id == ctx.actor_id {
        Some(DenyReason::TargetSelf)
    } else if ctx.target_id == ctx.owner_id {
        Some(DenyReason::TargetOwner)
    } else if ctx.target_is_admin {
        Some(DenyReason::TargetAdmin)
    } else if needs_bot_rank && ctx.target_role_position >= ctx.bot_role_position {
        Some(DenyReason::BotRankTooLow)
    } else if ctx.actor_id != ctx.owner_id && ctx.target_role_position
        >= ctx.actor_role_position {
        Some(DenyReason::ActorRankTooLow)
    } else {
        None
    }
}

/// Law: evaluation denies whenever the target's role position is at least
/// the actor's, unless the actor owns the guild — for every pair of role
/// positions and whether or not the action needs the bot's rank.
pub proof fn lemma_hierarchy_denies(ctx: PolicyContext, needs_bot_rank: bool)
    requires
        ctx.target_role_position >= ctx.actor_role_position,
        ctx.actor_id != ctx.owner_id,
    ensures
        spec_evaluate(ctx, needs_bot_rank) is Some,
{
}

} // verus!

use modcore::case::CaseType;
use modcore::executor::{
    commit_ban, commit_kick, commit_mute, execute_warn, prepare_ban, prepare_kick, prepare_mute,
    prepare_unmute,
};
use modcore::log_types::LogType;
use modcore::logs::route;
use modcore::policy::{evaluate, DenyReason, PolicyContext};
use modcore::settings::{default_settings, GuildSettings};
use modcore::store::CaseStore;
use modcore::sweeper::{sweep_due, sweep_log_type};
use modcore::time::now_seconds;

fn allowed_ctx() -> PolicyContext {
    PolicyContext {
        actor_id: 10,
        target_id: 20,
        owner_id: 1,
        target_is_bot: false,
        target_is_admin: false,
        actor_role_position: 5,
        target_role_position: 2,
        bot_role_position: 9,
    }
}

fn settings_all_logs(guild_id: u64) -> GuildSettings {
    GuildSettings { default_log_channel: Some(777), ..default_settings(guild_id) }
}

#[test]
fn case_ids_are_sequential_per_guild() {
    let mut store = CaseStore::new();
    let ctx = allowed_ctx();
    let settings = settings_all_logs(1);
    let now = 1_000_000;

    let a = commit_kick(&mut store, &settings, &ctx, 1, None, now);
    let b = commit_kick(&mut store, &settings, &ctx, 1, None, now);
    // another guild allocates independently
    let other = commit_kick(&mut store, &settings, &ctx, 2, None, now);
    let c = commit_ban(&mut store, &settings, &ctx, 1, None, None, now);

    assert_eq!(a.case_id, 1);
    assert_eq!(b.case_id, 2);
    assert_eq!(other.case_id, 1);
    assert_eq!(c.case_id, 3);
}

#[test]
fn ids_are_never_reused_after_deletion() {
    let mut store = CaseStore::new();
    let ctx = allowed_ctx();
    let settings = settings_all_logs(1);
    let a = commit_kick(&mut store, &settings, &ctx, 1, None, 100);
    let b = commit_kick(&mut store, &settings, &ctx, 1, None, 100);
    assert_eq!((a.case_id, b.case_id), (1, 2));
    store.delete_case(1, 2);
    let c = commit_kick(&mut store, &settings, &ctx, 1, None, 100);
    // the maximum ever used was 2, so the next id is 3, not 2 again
    assert_eq!(c.case_id, 3);
}

#[test]
fn mute_with_active_mute_case_is_denied() {
    let mut store = CaseStore::new();
    let ctx = allowed_ctx();
    let settings = settings_all_logs(1);
    let now = 50_000;
    let end = prepare_mute(&ctx, &store, 1, "1h", now).expect("first mute is allowed");
    assert_eq!(end, now + 3600);
    commit_mute(&mut store, &settings, &ctx, 1, None, end, now);

    // any duration is denied while the mute case is open and unexpired
    assert_eq!(prepare_mute(&ctx, &store, 1, "5m", now + 10), Err(DenyReason::AlreadyMuted));
    assert_eq!(prepare_mute(&ctx, &store, 1, "28d", now + 10), Err(DenyReason::AlreadyMuted));
    // once the mute has lapsed the guard no longer holds
    assert!(prepare_mute(&ctx, &store, 1, "5m", end + 1).is_ok());
}

#[test]
fn unmute_requires_an_active_mute() {
    let mut store = CaseStore::new();
    let ctx = allowed_ctx();
    let settings = settings_all_logs(1);
    assert_eq!(prepare_unmute(&ctx, &store, 1, 100), Err(DenyReason::NotMuted));
    let end = prepare_mute(&ctx, &store, 1, "10m", 100).unwrap();
    commit_mute(&mut store, &settings, &ctx, 1, None, end, 100);
    assert_eq!(prepare_unmute(&ctx, &store, 1, 150), Ok(()));
}

#[test]
fn hierarchy_checks_run_in_order() {
    let mut ctx = allowed_ctx();
    ctx.target_is_bot = true;
    assert_eq!(evaluate(&ctx, true), Some(DenyReason::TargetBot));

    let mut ctx = allowed_ctx();
    ctx.target_id = ctx.actor_id;
    assert_eq!(evaluate(&ctx, true), Some(DenyReason::TargetSelf));

    let mut ctx = allowed_ctx();
    ctx.target_id = ctx.owner_id;
    assert_eq!(evaluate(&ctx, true), Some(DenyReason::TargetOwner));

    let mut ctx = allowed_ctx();
    ctx.target_is_admin = true;
    assert_eq!(evaluate(&ctx, true), Some(DenyReason::TargetAdmin));

    let mut ctx = allowed_ctx();
    ctx.target_role_position = ctx.bot_role_position;
    assert_eq!(evaluate(&ctx, true), Some(DenyReason::BotRankTooLow));

    let mut ctx = allowed_ctx();
    ctx.target_role_position = ctx.actor_role_position;
    assert_eq!(evaluate(&ctx, true), Some(DenyReason::ActorRankTooLow));
    // the same positions pass when the actor owns the guild
    ctx.owner_id = ctx.actor_id;
    assert_eq!(evaluate(&ctx, true), None);
    // a warn skips the bot-rank check; the actor still outranks the target
    let mut ctx = allowed_ctx();
    ctx.target_role_position = ctx.bot_role_position;
    ctx.actor_role_position = ctx.bot_role_position + 1;
    assert_eq!(evaluate(&ctx, true), Some(DenyReason::BotRankTooLow));
    assert_eq!(evaluate(&ctx, false), None);
}

#[test]
fn ban_with_disabled_category_persists_but_delivers_nothing() {
    let mut store = CaseStore::new();
    let ctx = allowed_ctx();
    // every category except Ban
    let mask = 4095 & !(LogType::Ban.as_bit());
    let settings = GuildSettings { log_types: mask, ..settings_all_logs(1) };

    let end = prepare_ban(&ctx, &Some(String::from("1d")), 1000).expect("allowed");
    assert_eq!(end, Some(1000 + 86400));
    let committed = commit_ban(&mut store, &settings, &ctx, 1, None, end, 1000);
    assert_eq!(committed.case_id, 1);
    assert_eq!(committed.log_channel, None);
    assert_eq!(store.len(), 1);
    // an enabled category would have been delivered
    assert_eq!(route(&settings, LogType::Kick), Some(777));
}

#[test]
fn warn_expiry_scenario() {
    // guild with a 3-day warning expiry
    let mut store = CaseStore::new();
    let ctx = allowed_ctx();
    let settings = settings_all_logs(7);
    assert_eq!(settings.warn_expire_time, 3);
    let t0 = 1_700_000_000;

    let out = execute_warn(&mut store, &settings, &ctx, 7, 2, None, true, t0).expect("allowed");
    assert_eq!(out.case_id, 1);
    assert_eq!(out.end_date, Some(t0 + 3 * 86400));
    assert_eq!(out.total_points, 2);

    // one second before the end date nothing is due
    let early = sweep_due(&store, CaseType::Warn, t0 + 3 * 86400);
    assert!(early.is_empty());

    // one second past the end date the warning lapses
    let due = sweep_due(&store, CaseType::Warn, t0 + 3 * 86400 + 1);
    assert_eq!(due.len(), 1);
    assert_eq!(due[0].points, 2);
    assert_eq!(due[0].user_id, 20);
    assert_eq!(sweep_log_type(CaseType::Warn), Some(LogType::RemoveWarn));

    store.delete_case(due[0].guild_id, due[0].case_id);
    assert_eq!(store.len(), 0);
    let again = sweep_due(&store, CaseType::Warn, t0 + 3 * 86400 + 1);
    assert!(again.is_empty());
}

#[test]
fn ban_expiry_scenario() {
    let mut store = CaseStore::new();
    let ctx = allowed_ctx();
    let settings = settings_all_logs(1);
    let now = 500_000;

    let end = prepare_ban(&ctx, &Some(String::from("1d")), now).unwrap();
    assert_eq!(end, Some(now + 86400));
    let committed = commit_ban(&mut store, &settings, &ctx, 1, None, end, now);

    // before the end date the sweep is a no-op
    assert!(sweep_due(&store, CaseType::Ban, now + 86400).is_empty());

    // after the end date exactly one unban is due
    let due = sweep_due(&store, CaseType::Ban, now + 86401);
    assert_eq!(due.len(), 1);
    assert_eq!(due[0].case_id, committed.case_id);
    assert_eq!(sweep_log_type(CaseType::Ban), Some(LogType::Unban));
    store.delete_case(due[0].guild_id, due[0].case_id);

    // invoked twice in succession: the second sweep finds no case
    let again = sweep_due(&store, CaseType::Ban, now + 86401);
    assert!(again.is_empty());
}

#[test]
fn long_mute_is_denied_before_any_effect() {
    let store = CaseStore::new();
    let ctx = allowed_ctx();
    // 30 days exceed the 28-day maximum
    assert_eq!(prepare_mute(&ctx, &store, 1, "30d", 0), Err(DenyReason::DurationTooLong));
    // 28 days exactly are fine
    assert_eq!(prepare_mute(&ctx, &store, 1, "28d", 0), Ok(28 * 86400));
    assert_eq!(store.len(), 0);
}

#[test]
fn short_durations_are_denied() {
    let ctx = allowed_ctx();
    let store = CaseStore::new();
    assert_eq!(prepare_ban(&ctx, &Some(String::from("59s")), 0), Err(DenyReason::DurationTooShort));
    assert_eq!(prepare_ban(&ctx, &Some(String::from("60s")), 0), Ok(Some(60)));
    assert_eq!(prepare_ban(&ctx, &None, 0), Ok(None));
    assert_eq!(
        prepare_ban(&ctx, &Some(String::from("x1d")), 0),
        Err(DenyReason::InvalidDurationFormat)
    );
    assert_eq!(prepare_mute(&ctx, &store, 1, "59s", 0), Err(DenyReason::DurationTooShort));
}

#[test]
fn kick_runs_the_policy() {
    let mut ctx = allowed_ctx();
    assert_eq!(prepare_kick(&ctx), Ok(()));
    ctx.target_is_admin = true;
    assert_eq!(prepare_kick(&ctx), Err(DenyReason::TargetAdmin));
}

#[test]
fn warn_totals_are_derived_from_stored_cases() {
    let mut store = CaseStore::new();
    let ctx = allowed_ctx();
    let settings = settings_all_logs(3);
    let a = execute_warn(&mut store, &settings, &ctx, 3, 4, None, false, 100).unwrap();
    assert_eq!(a.total_points, 4);
    assert_eq!(a.end_date, None);
    let b = execute_warn(&mut store, &settings, &ctx, 3, 5, None, false, 200).unwrap();
    assert_eq!(b.total_points, 9);
    // removing the first warning lowers the derived total
    store.delete_case(3, a.case_id);
    assert_eq!(store.sum_warn_points(3, 20), 5);
}

#[test]
fn denied_warn_changes_nothing() {
    let mut store = CaseStore::new();
    let mut ctx = allowed_ctx();
    ctx.target_is_bot = true;
    let settings = settings_all_logs(1);
    let r = execute_warn(&mut store, &settings, &ctx, 1, 1, None, false, 100);
    assert_eq!(r.err(), Some(DenyReason::TargetBot));
    assert_eq!(store.len(), 0);
}

#[test]
fn clock_reads_as_epoch_seconds() {
    // the sandbox clock lies well past 2020
    let t = now_seconds();
    assert!(t > 1_577_836_800);
}

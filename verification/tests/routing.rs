use modcore::case::CaseType;
use modcore::channel::{
    plan_lock, plan_unlock, LockDecision, OverwriteState, UnlockDecision, SEND_BITS, SEND_MESSAGES,
};
use modcore::executor::{commit_ban, commit_mute, execute_warn};
use modcore::log_types::{get_active_categories, is_active, set_categories, string_to_log_type, LogType};
use modcore::logs::{route, LogData};
use modcore::policy::PolicyContext;
use modcore::removal::{
    check_batch, plan_removal, BatchError, CaseReport, Reversal, WarnRemovalLog,
};
use modcore::settings::{default_settings, GuildSettings, SettingsStore};
use modcore::store::{CaseFilter, CaseStore};
use modcore::view::{group_cases_by_user, next_page, page_count, page_window, prev_page, select_case_filter, ViewError};
use modcore::localization::Language;

fn ctx_for(target: u64) -> PolicyContext {
    PolicyContext {
        actor_id: 10,
        target_id: target,
        owner_id: 1,
        target_is_bot: false,
        target_is_admin: false,
        actor_role_position: 5,
        target_role_position: 2,
        bot_role_position: 9,
    }
}

fn settings_with_channel(guild_id: u64) -> GuildSettings {
    GuildSettings { default_log_channel: Some(555), ..default_settings(guild_id) }
}

#[test]
fn category_bits_match_their_positions() {
    assert_eq!(LogType::ClearMessages.as_bit(), 1);
    assert_eq!(LogType::ClearChannel.as_bit(), 2);
    assert_eq!(LogType::Mute.as_bit(), 4);
    assert_eq!(LogType::Unmute.as_bit(), 8);
    assert_eq!(LogType::Kick.as_bit(), 16);
    assert_eq!(LogType::Lock.as_bit(), 32);
    assert_eq!(LogType::Unlock.as_bit(), 64);
    assert_eq!(LogType::Ban.as_bit(), 128);
    assert_eq!(LogType::Unban.as_bit(), 256);
    assert_eq!(LogType::Warn.as_bit(), 512);
    assert_eq!(LogType::RemoveWarn.as_bit(), 1024);
    assert_eq!(LogType::RemoveMultipleWarns.as_bit(), 2048);
}

#[test]
fn set_then_get_categories_round_trips() {
    // for any starting mask, the selection wholly replaces it
    for mask in [0u32, 4095, 0b1010, 77] {
        let selected = vec![LogType::Ban, LogType::Warn];
        let new_mask = set_categories(mask, &selected);
        let active = get_active_categories(new_mask);
        assert_eq!(active, vec![LogType::Ban, LogType::Warn]);
    }
    // the empty selection disables everything
    let cleared = set_categories(4095, &Vec::new());
    assert_eq!(cleared, 0);
    assert!(get_active_categories(cleared).is_empty());
}

#[test]
fn default_mask_enables_all_categories() {
    let s = default_settings(9);
    assert_eq!(get_active_categories(s.log_types).len(), 12);
    assert!(is_active(s.log_types, LogType::Lock));
}

#[test]
fn router_needs_channel_and_bit() {
    let mut s = settings_with_channel(1);
    assert_eq!(route(&s, LogType::Ban), Some(555));
    s.log_types = 4095 & !LogType::Ban.as_bit();
    assert_eq!(route(&s, LogType::Ban), None);
    assert_eq!(route(&s, LogType::Warn), Some(555));
    s.default_log_channel = None;
    assert_eq!(route(&s, LogType::Warn), None);
}

#[test]
fn log_data_starts_empty() {
    let d = LogData::new(42, 10);
    assert_eq!(d.guild_id, 42);
    assert_eq!(d.moderator_id, Some(10));
    assert!(d.user_id.is_none() && d.case_id.is_none() && d.points.is_none());
}

#[test]
fn titles_match_their_categories() {
    assert_eq!(LogType::Ban.title(), "User Banned");
    assert_eq!(LogType::RemoveMultipleWarns.title(), "Multiple Warnings Removed");
}

#[test]
fn category_names_round_trip() {
    let all = [
        LogType::ClearMessages,
        LogType::ClearChannel,
        LogType::Mute,
        LogType::Unmute,
        LogType::Kick,
        LogType::Lock,
        LogType::Unlock,
        LogType::Ban,
        LogType::Unban,
        LogType::Warn,
        LogType::RemoveWarn,
        LogType::RemoveMultipleWarns,
    ];
    for t in all {
        assert_eq!(string_to_log_type(t.name()), Some(t));
    }
    assert_eq!(LogType::RemoveWarn.name(), "RemoveWarn");
    assert_eq!(string_to_log_type("ban"), None);
    assert_eq!(string_to_log_type(""), None);
}

#[test]
fn batch_size_is_bounded() {
    assert_eq!(check_batch(&Vec::new()), Err(BatchError::NoValidIds));
    assert_eq!(check_batch(&vec![1; 11]), Err(BatchError::TooMany));
    assert!(check_batch(&vec![1]).is_ok());
    assert!(check_batch(&vec![1; 10]).is_ok());
}

#[test]
fn single_warn_batch_logs_one_remove_warn() {
    let mut store = CaseStore::new();
    let settings = settings_with_channel(1);
    let out = execute_warn(&mut store, &settings, &ctx_for(20), 1, 3, None, false, 100).unwrap();

    // one id names the warning, the others name nothing
    let ids = vec![out.case_id, 98, 99];
    let plan = plan_removal(&store, 1, &ids);
    assert_eq!(plan.reports.len(), 3);
    assert!(matches!(plan.reports[0], CaseReport::Removed { case_id: 1, user_id: 20, kind: CaseType::Warn }));
    assert!(matches!(plan.reports[1], CaseReport::NotFound { case_id: 98 }));
    assert!(matches!(plan.reports[2], CaseReport::NotFound { case_id: 99 }));
    assert!(plan.reversals.is_empty());
    assert_eq!(plan.removed_warns.len(), 1);
    match plan.warn_log {
        WarnRemovalLog::Single(w) => {
            assert_eq!(w.points, 3);
            assert_eq!(w.user_id, 20);
        },
        _ => panic!("expected the single-warning entry"),
    }
}

#[test]
fn multi_warn_batch_logs_one_grouped_entry() {
    let mut store = CaseStore::new();
    let settings = settings_with_channel(1);
    let a = execute_warn(&mut store, &settings, &ctx_for(20), 1, 1, None, false, 100).unwrap();
    let b = execute_warn(&mut store, &settings, &ctx_for(30), 1, 2, None, false, 101).unwrap();
    let c = execute_warn(&mut store, &settings, &ctx_for(20), 1, 5, None, false, 102).unwrap();

    let ids = vec![a.case_id, b.case_id, c.case_id];
    let plan = plan_removal(&store, 1, &ids);
    assert_eq!(plan.removed_warns.len(), 3);
    match &plan.warn_log {
        WarnRemovalLog::Multiple(groups) => {
            // grouped by user, in order of first appearance
            assert_eq!(groups.len(), 2);
            assert_eq!(groups[0].user_id, 20);
            assert_eq!(groups[0].warns.len(), 2);
            assert_eq!(groups[0].warns[0].points, 1);
            assert_eq!(groups[0].warns[1].points, 5);
            assert_eq!(groups[1].user_id, 30);
            assert_eq!(groups[1].warns.len(), 1);
        },
        _ => panic!("expected the grouped entry"),
    }
}

#[test]
fn removal_reverses_bans_and_mutes() {
    let mut store = CaseStore::new();
    let settings = settings_with_channel(1);
    let ban = commit_ban(&mut store, &settings, &ctx_for(20), 1, None, Some(10_000), 100);
    let mute = commit_mute(&mut store, &settings, &ctx_for(30), 1, None, 20_000, 100);

    let ids = vec![ban.case_id, mute.case_id];
    let plan = plan_removal(&store, 1, &ids);
    assert_eq!(plan.reversals.len(), 2);
    assert!(matches!(plan.reversals[0], Reversal::Unban { user_id: 20, .. }));
    assert!(matches!(plan.reversals[1], Reversal::Unmute { user_id: 30, .. }));
    assert!(matches!(plan.warn_log, WarnRemovalLog::NoWarns));

    store.delete_cases(1, &ids);
    assert_eq!(store.len(), 0);
    // deleting an already-removed batch reports not-found, not a failure
    let second = plan_removal(&store, 1, &ids);
    assert!(matches!(second.reports[0], CaseReport::NotFound { .. }));
}

#[test]
fn batch_of_only_unknown_ids_still_reports() {
    let store = CaseStore::new();
    let ids = vec![5, 6];
    let plan = plan_removal(&store, 1, &ids);
    assert_eq!(plan.reports.len(), 2);
    assert!(plan.reports.iter().all(|r| matches!(r, CaseReport::NotFound { .. })));
    assert!(matches!(plan.warn_log, WarnRemovalLog::NoWarns));
}

#[test]
fn view_filters_are_mutually_exclusive() {
    assert_eq!(
        select_case_filter(Some(20), Some(1), None, None),
        Err(ViewError::UserAndId)
    );
    assert_eq!(
        select_case_filter(None, Some(1), Some(CaseType::Ban), None),
        Err(ViewError::IdAndKind)
    );
    assert_eq!(
        select_case_filter(None, Some(1), None, Some(10)),
        Err(ViewError::IdAndModerator)
    );
    assert_eq!(
        select_case_filter(Some(20), None, None, Some(10)),
        Err(ViewError::ModeratorAndUser)
    );
    assert_eq!(
        select_case_filter(None, None, Some(CaseType::Ban), Some(10)),
        Err(ViewError::ModeratorAndKind)
    );
    assert_eq!(select_case_filter(None, Some(4), None, None), Ok(CaseFilter::ById(4)));
    assert_eq!(select_case_filter(None, None, None, Some(10)), Ok(CaseFilter::ByModerator(10)));
    assert_eq!(select_case_filter(Some(20), None, None, None), Ok(CaseFilter::ByUser(20)));
    assert_eq!(select_case_filter(None, None, None, None), Ok(CaseFilter::All));
}

#[test]
fn listing_filters_and_groups() {
    let mut store = CaseStore::new();
    let settings = settings_with_channel(1);
    execute_warn(&mut store, &settings, &ctx_for(20), 1, 1, None, false, 100).unwrap();
    execute_warn(&mut store, &settings, &ctx_for(30), 1, 1, None, false, 101).unwrap();
    execute_warn(&mut store, &settings, &ctx_for(20), 1, 1, None, false, 102).unwrap();
    // a different guild stays out of guild 1's listing
    execute_warn(&mut store, &settings, &ctx_for(20), 2, 1, None, false, 103).unwrap();

    let all = store.list_cases(1, CaseFilter::All);
    assert_eq!(all.len(), 3);
    let of_user = store.list_cases(1, CaseFilter::ByUser(20));
    assert_eq!(of_user.len(), 2);
    let by_mod = store.list_cases(1, CaseFilter::ByModerator(10));
    assert_eq!(by_mod.len(), 3);
    let one = store.list_cases(1, CaseFilter::ById(2));
    assert_eq!(one.len(), 1);
    assert_eq!(one[0].user_id, 30);

    let grouped = group_cases_by_user(&all);
    assert_eq!(grouped.len(), 2);
    assert_eq!(grouped[0].user_id, 20);
    assert_eq!(grouped[0].cases.len(), 2);
    assert_eq!(grouped[1].user_id, 30);
}

#[test]
fn page_counts_round_up() {
    assert_eq!(page_count(0), 0);
    assert_eq!(page_count(1), 1);
    assert_eq!(page_count(10), 1);
    assert_eq!(page_count(11), 2);
    assert_eq!(page_count(25), 3);
}

#[test]
fn page_windows_and_buttons() {
    assert_eq!(page_window(25, 0), (0, 10));
    assert_eq!(page_window(25, 1), (10, 20));
    assert_eq!(page_window(25, 2), (20, 25));
    assert_eq!(page_window(25, 5), (25, 25));
    assert_eq!(page_window(0, 0), (0, 0));

    assert_eq!(prev_page(0), 0);
    assert_eq!(prev_page(3), 2);
    assert_eq!(next_page(0, 3), 1);
    assert_eq!(next_page(2, 3), 2);
    assert_eq!(next_page(0, 0), 0);
}

#[test]
fn duplicate_ids_in_a_batch_count_twice() {
    // a repeated id reports twice and lists its warning twice, so the
    // batch entry takes the grouped form
    let mut store = CaseStore::new();
    let settings = settings_with_channel(1);
    let out = execute_warn(&mut store, &settings, &ctx_for(20), 1, 2, None, false, 100).unwrap();
    let ids = vec![out.case_id, out.case_id];
    let plan = plan_removal(&store, 1, &ids);
    assert_eq!(plan.reports.len(), 2);
    assert_eq!(plan.removed_warns.len(), 2);
    assert!(matches!(&plan.warn_log, WarnRemovalLog::Multiple(g) if g.len() == 1 && g[0].warns.len() == 2));
}

#[test]
fn lock_and_unlock_edit_the_everyone_overwrite() {
    // no entry yet: a fresh overwrite denies sending
    let locked = plan_lock(None);
    match locked {
        LockDecision::Apply(o) => {
            assert_eq!(o.allow, 0);
            assert_eq!(o.deny, SEND_BITS);
        },
        _ => panic!("expected an overwrite"),
    }
    // an entry that allows sending gets it denied and removed from allow
    let open = OverwriteState { allow: SEND_BITS | 1, deny: 0 };
    match plan_lock(Some(open)) {
        LockDecision::Apply(o) => {
            assert_eq!(o.allow, 1);
            assert_eq!(o.deny, SEND_BITS);
        },
        _ => panic!("expected an overwrite"),
    }
    // locking a locked channel is refused
    let shut = OverwriteState { allow: 0, deny: SEND_MESSAGES };
    assert!(matches!(plan_lock(Some(shut)), LockDecision::AlreadyLocked));

    // unlock restores sending
    match plan_unlock(Some(shut)) {
        UnlockDecision::Apply(o) => {
            assert_eq!(o.allow, SEND_BITS);
            assert_eq!(o.deny, 0);
        },
        _ => panic!("expected an overwrite"),
    }
    assert!(matches!(plan_unlock(Some(open)), UnlockDecision::AlreadyUnlocked));
    assert!(matches!(plan_unlock(None), UnlockDecision::AlreadyUnlocked));
}

#[test]
fn settings_store_upserts_once_per_guild() {
    let mut store = SettingsStore::new();
    store.upsert_settings(5);
    store.update_warn_expire_time(5, 14);
    // a second upsert leaves the row exactly as it is
    store.upsert_settings(5);
    let row = store.get_settings(5).unwrap();
    assert_eq!(row.warn_expire_time, 14);
    assert_eq!(row.log_types, 4095);
    assert_eq!(row.default_log_channel, None);

    store.update_log_channel(5, Some(900));
    store.update_log_types(5, 128);
    assert_eq!(store.get_settings(5).unwrap().default_log_channel, Some(900));
    assert_eq!(store.get_settings(5).unwrap().log_types, 128);
    assert!(store.get_settings(6).is_none());

    store.set_guild_language(5, Language::Polish);
    assert_eq!(store.get_guild_language(5), Language::Polish);
    // a guild without a row answers in the default language
    assert_eq!(store.get_guild_language(6), Language::English);
    // setting a language creates the missing row
    store.set_guild_language(6, Language::Polish);
    assert_eq!(store.get_guild_language(6), Language::Polish);
}

#[test]
fn startup_reconciliation_creates_missing_rows_only() {
    let mut store = SettingsStore::new();
    store.upsert_settings(1);
    store.update_warn_expire_time(1, 30);
    store.upsert_all(&vec![1, 2, 3]);
    // the existing row keeps its edits, the new rows get the defaults
    assert_eq!(store.get_settings(1).unwrap().warn_expire_time, 30);
    assert_eq!(store.get_settings(2).unwrap(), default_settings(2));
    assert_eq!(store.get_settings(3).unwrap(), default_settings(3));
}

//! The log router: decides whether and where a completed action's audit
//! entry is delivered, and carries the entry's structured content.
//!
//! A guild without a configured log channel gets nothing; otherwise an
//! entry is delivered exactly when the action's category bit is set in
//! the guild's mask. Rendering and delivery are presentation concerns of
//! the caller; the router hands over plain values.

use vstd::prelude::*;
use crate::log_types::{LogType, spec_is_active, is_active};
use crate::settings::GuildSettings;

verus! {

/// One removed warning, as listed in a grouped removal entry.
#[derive(Clone, Copy, Debug, PartialEq, Eq, Structural)]
pub struct RemovedWarn {
    pub user_id: u64,
    pub case_id: u32,
    pub points: u32,
}

/// The structured content of one audit entry. Which fields are filled
/// depends on the entry's category.
pub struct LogData {
    pub guild_id: u64,
    pub user_id: Option<u64>,
    pub channel_id: Option<u64>,
    pub moderator_id: Option<u64>,
    pub reason: Option<String>,
    pub duration: Option<String>,
    pub case_id: Option<u32>,
    pub points: Option<u32>,
    pub messages_deleted: Option<u32>,
    pub removed_warns: Option<Vec<RemovedWarn>>,
}

impl LogData {
    /// An entry about the guild by the given moderator, with every other
    /// field empty.
    pub fn new(guild_id: u64, moderator_id: u64) -> (r: Self)
        ensures
            r.guild_id == guild_id,
            r.moderator_id == Some(moderator_id),
            r.user_id is None,
            r.channel_id is None,
            r.reason is None,
            r.duration is None,
            r.case_id is None,
            r.points is None,
            r.messages_deleted is None,
            r.removed_warns is None,
    {
        LogData {
            guild_id,
            user_id: None,
            channel_id: None,
            moderator_id: Some(moderator_id),
            reason: None,
            duration: None,
            case_id: None,
            points: None,
            messages_deleted: None,
            removed_warns: None,
        }
    }
}

/// Where an entry of the category is delivered: the configured channel
/// when one is set and the category's bit is on; nowhere otherwise.
pub open spec fn spec_route(settings: GuildSettings, kind: LogType) -> Option<u64> {
    match settings.default_log_channel {
        None => None,
        Some(ch) => if spec_is_active(settings.log_types, kind) {
            Some(ch)
        } else {
            None
        },
    }
}

/// Decides delivery for one completed action. `None` means no entry is
/// delivered; the action itself stands either way.
pub fn route(settings: &GuildSettings, kind: LogType) -> (r: Option<u64>)
    ensures
        r == spec_route(*settings, kind),
{
    match settings.default_log_channel {
        None => None,
        Some(ch) => {
            if is_active(settings.log_types, kind) {
                Some(ch)
            } else {
                None
            }
        },
    }
}

/// Law: a category whose bit is off in the guild's mask is never
/// delivered, whatever channel is configured.
pub proof fn lemma_disabled_category_silent(settings: GuildSettings, kind: LogType)
    requires
        !spec_is_active(settings.log_types, kind),
    ensures
        spec_route(settings, kind) is None,
{
}

/// Law: a guild without a configured log channel never receives an
/// entry, whatever the mask holds.
pub proof fn lemma_no_channel_silent(settings: GuildSettings, kind: LogType)
    requires
        settings.default_log_channel is None,
    ensures
        spec_route(settings, kind) is None,
{
}

/// The fixed English headline of each audit-entry category.
pub open spec fn title_of(kind: LogType) -> Seq<char> {
    match kind {
        LogType::ClearMessages => "Messages Purged"@,
        LogType::ClearChannel => "Channel nuked"@,
        LogType::Mute => "User Muted"@,
        LogType::Unmute => "User Unmuted"@,
        LogType::Kick => "User Kicked"@,
        LogType::Lock => "Channel Locked"@,
        LogType::Unlock => "Channel Unlocked"@,
        LogType::Ban => "User Banned"@,
        LogType::Unban => "User Unbanned"@,
        LogType::Warn => "User Warned"@,
        LogType::RemoveWarn => "Warning Removed"@,
        LogType::RemoveMultipleWarns => "Multiple Warnings Removed"@,
    }
}

impl LogType {
    /// The entry's headline.
    pub fn title(&self) -> (r: &'static str)
        ensures
            r@ == title_of(*self),
    {
        match self {
            LogType::ClearMessages => "Messages Purged",
            LogType::ClearChannel => "Channel nuked",
            LogType::Mute => "User Muted",
            LogType::Unmute => "User Unmuted",
            LogType::Kick => "User Kicked",
            LogType::Lock => "Channel Locked",
            LogType::Unlock => "Channel Unlocked",
            LogType::Ban => "User Banned",
            LogType::Unban => "User Unbanned",
            LogType::Warn => "User Warned",
            LogType::RemoveWarn => "Warning Removed",
            LogType::RemoveMultipleWarns => "Multiple Warnings Removed",
        }
    }
}

} // verus!

//! Per-guild settings: display language, default log channel, enabled
//! log categories and the default warning expiry.
//!
//! Exactly one row exists per guild; it is created (upserted) when the
//! service joins a guild or reconciles on startup, and single fields are
//! updated through narrow operations scoped by guild id.

use vstd::prelude::*;
use crate::localization::Language;
use crate::strings::{parse_decimal, spec_parse_decimal, str_eq};

verus! {

/// Warning expiry of a fresh settings row, in days.
pub const DEFAULT_WARN_EXPIRE_DAYS: u64 = 3;

/// Fewest expiry days an administrator may configure.
pub const MIN_WARN_EXPIRE_DAYS: u64 = 3;

/// Most expiry days the configuration input can express (three digits).
pub const MAX_WARN_EXPIRE_DAYS: u64 = 999;

/// Mask of a fresh settings row: all twelve categories enabled.
pub const DEFAULT_LOG_TYPES_MASK: u32 = 4095;

/// One guild's settings row.
#[derive(Clone, Copy, Debug, PartialEq, Eq, Structural)]
pub struct GuildSettings {
    pub guild_id: u64,
    /// Display language of replies and notifications.
    pub lang: Language,
    /// Days before a fresh expiring warning lapses.
    pub warn_expire_time: u64,
    /// Bitmask of enabled log categories.
    pub log_types: u32,
    /// Where notifications are delivered; none disables delivery.
    pub default_log_channel: Option<u64>,
}

impl GuildSettings {
    /// The expiry stays inside the range the configuration flow accepts.
    pub open spec fn wf(self) -> bool {
        MIN_WARN_EXPIRE_DAYS <= self.warn_expire_time <= MAX_WARN_EXPIRE_DAYS
    }
}

/// The row a guild starts with.
pub fn default_settings(guild_id: u64) -> (r: GuildSettings)
    ensures
        r == default_settings_row(guild_id),
        r.wf(),
{
    GuildSettings {
        guild_id,
        lang: Language::English,
        warn_expire_time: DEFAULT_WARN_EXPIRE_DAYS,
        log_types: DEFAULT_LOG_TYPES_MASK,
        default_log_channel: None,
    }
}

/// The row a guild starts with, at specification level.
pub open spec fn default_settings_row(guild_id: u64) -> GuildSettings {
    GuildSettings {
        guild_id,
        lang: Language::English,
        warn_expire_time: DEFAULT_WARN_EXPIRE_DAYS,
        log_types: DEFAULT_LOG_TYPES_MASK,
        default_log_channel: None,
    }
}

/// Whether `s` holds a row of the guild.
pub open spec fn has_guild(s: Seq<GuildSettings>, guild_id: u64) -> bool {
    exists|i: int| 0 <= i < s.len() && (#[trigger] s[i]).guild_id == guild_id
}

/// The first row of the guild, if any; under the store's invariant it
/// is the only one.
pub open spec fn find_settings(s: Seq<GuildSettings>, guild_id: u64) -> Option<GuildSettings>
    decreases s.len(),
{
    if s.len() == 0 {
        None
    } else if s[0].guild_id == guild_id {
        Some(s[0])
    } else {
        find_settings(s.drop_first(), guild_id)
    }
}

/// The store of every guild's settings row.
pub struct SettingsStore {
    rows: Vec<GuildSettings>,
}

impl View for SettingsStore {
    type V = Seq<GuildSettings>;

    closed spec fn view(&self) -> Seq<GuildSettings> {
        self.rows@
    }
}

impl SettingsStore {
    /// One row per guild, each inside the accepted ranges.
    pub open spec fn wf(&self) -> bool {
        &&& forall|i: int| 0 <= i < self@.len() ==> (#[trigger] self@[i]).wf()
        &&& forall|i: int, j: int|
            #![trigger self@[i].guild_id, self@[j].guild_id]
            0 <= i < self@.len() && 0 <= j < self@.len() && i != j ==> self@[i].guild_id
                != self@[j].guild_id
    }

    /// An empty store.
    pub fn new() -> (r: Self)
        ensures
            r@ == Seq::<GuildSettings>::empty(),
            r.wf(),
    {
        SettingsStore { rows: Vec::new() }
    }

    /// The guild's row, if one exists: the first match, which under the
    /// store's invariant is the only one.
    pub fn get_settings(&self, guild_id: u64) -> (r: Option<GuildSettings>)
        ensures
            r == find_settings(self@, guild_id),
            r is Some <==> has_guild(self@, guild_id),
            r matches Some(g) ==> self@.contains(g) && g.guild_id == guild_id,
    {
        let mut i: usize = 0;
        proof {
            assert(self@.skip(0) =~= self@);
        }
        while i < self.rows.len()
            invariant
                i <= self.rows@.len(),
                self@ == self.rows@,
                find_settings(self@, guild_id) == find_settings(self@.skip(i as int), guild_id),
                forall|k: int| 0 <= k < i ==> (#[trigger] self@[k]).guild_id != guild_id,
            decreases self.rows@.len() - i,
        {
            proof {
                assert(self@.skip(i as int).len() > 0);
                assert(self@.skip(i as int)[0] == self@[i as int]);
                assert(self@.skip(i as int).drop_first() =~= self@.skip(i as int + 1));
            }
            let row = self.rows[i];
            if row.guild_id == guild_id {
                proof {
                    assert(self@[i as int] == row);
                }
                return Some(row);
            }
            i = i + 1;
        }
        proof {
            assert(self@.skip(self@.len() as int).len() == 0);
        }
        None
    }

    /// The guild's display language; a guild without a row answers in the
    /// default language.
    pub fn get_guild_language(&self, guild_id: u64) -> (r: Language)
        requires
            self.wf(),
        ensures
            forall|i: int|
                0 <= i < self@.len() && (#[trigger] self@[i]).guild_id == guild_id ==> r
                    == self@[i].lang,
            !has_guild(self@, guild_id) ==> r == Language::English,
    {
        match self.get_settings(guild_id) {
            Some(g) => {
                proof {
                    assert forall|i: int|
                        0 <= i < self@.len() && (#[trigger] self@[i]).guild_id
                            == guild_id implies g.lang == self@[i].lang by {
                        let k = choose|k: int| 0 <= k < self@.len() && #[trigger] self@[k] == g;
                    }
                }
                g.lang
            },
            None => Language::English,
        }
    }

    /// Creates the guild's row with the defaults when none exists; an
    /// existing row is left exactly as it is.
    pub fn upsert_settings(&mut self, guild_id: u64)
        requires
            old(self).wf(),
        ensures
            final(self).wf(),
            has_guild(old(self)@, guild_id) ==> final(self)@ == old(self)@,
            !has_guild(old(self)@, guild_id) ==> final(self)@ == old(self)@.push(
                default_settings_row(guild_id),
            ),
            has_guild(final(self)@, guild_id),
    {
        let mut i: usize = 0;
        while i < self.rows.len()
            invariant
                i <= self.rows@.len(),
                self@ == self.rows@,
                self@ == old(self)@,
                old(self).wf(),
                forall|k: int| 0 <= k < i ==> (#[trigger] self@[k]).guild_id != guild_id,
            decreases self.rows@.len() - i,
        {
            if self.rows[i].guild_id == guild_id {
                return ;
            }
            i = i + 1;
        }
        let row = default_settings(guild_id);
        let ghost s0 = self@;
        self.rows.push(row);
        proof {
            assert(self@[s0.len() as int] == row);
            assert forall|a: int, b: int|
                #![trigger self@[a].guild_id, self@[b].guild_id]
                0 <= a < self@.len() && 0 <= b < self@.len() && a != b implies self@[a].guild_id
                != self@[b].guild_id by {
                if a < s0.len() && b < s0.len() {
                    assert(self@[a] == s0[a] && self@[b] == s0[b]);
                } else if a == s0.len() {
                    assert(self@[b] == s0[b]);
                } else {
                    assert(self@[a] == s0[a]);
                }
            }
        }
    }

    /// Startup reconciliation: ensures every listed guild has a
    /// settings row, creating missing rows with the defaults. Existing
    /// rows are left exactly as they are.
    pub fn upsert_all(&mut self, guild_ids: &Vec<u64>)
        requires
            old(self).wf(),
        ensures
            final(self).wf(),
            forall|k: int|
                0 <= k < guild_ids@.len() ==> has_guild(final(self)@, #[trigger] guild_ids@[k]),
            forall|i: int| 0 <= i < old(self)@.len() ==> final(self)@[i] == old(self)@[i],
            forall|i: int|
                old(self)@.len() <= i < final(self)@.len() ==> (#[trigger] final(self)@[i])
                    == default_settings_row(final(self)@[i].guild_id),
    {
        let mut k: usize = 0;
        while k < guild_ids.len()
            invariant
                k <= guild_ids@.len(),
                self.wf(),
                forall|j: int| 0 <= j < k ==> has_guild(self@, #[trigger] guild_ids@[j]),
                forall|i: int| 0 <= i < old(self)@.len() ==> self@[i] == old(self)@[i],
                self@.len() >= old(self)@.len(),
                forall|i: int|
                    old(self)@.len() <= i < self@.len() ==> (#[trigger] self@[i])
                        == default_settings_row(self@[i].guild_id),
            decreases guild_ids@.len() - k,
        {
            let ghost pre = self@;
            self.upsert_settings(guild_ids[k]);
            proof {
                if !has_guild(pre, guild_ids@[k as int]) {
                    assert(self@[pre.len() as int] == default_settings_row(guild_ids@[k as int]));
                }
                assert forall|j: int| 0 <= j < k + 1 implies has_guild(
                    self@,
                    #[trigger] guild_ids@[j],
                ) by {
                    if j < k {
                        let w = choose|w: int|
                            0 <= w < pre.len() && (#[trigger] pre[w]).guild_id == guild_ids@[j];
                        assert(self@[w] == pre[w]);
                    }
                }
            }
            k = k + 1;
        }
    }

    /// Points the guild's notifications at the channel, or disables
    /// delivery; rows of other guilds stay untouched.
    pub fn update_log_channel(&mut self, guild_id: u64, channel: Option<u64>)
        requires
            old(self).wf(),
        ensures
            final(self).wf(),
            final(self)@.len() == old(self)@.len(),
            forall|i: int|
                0 <= i < old(self)@.len() ==> final(self)@[i] == if (#[trigger] old(self)@[i]).guild_id
                    == guild_id {
                    (GuildSettings { default_log_channel: channel, ..old(self)@[i] })
                } else {
                    old(self)@[i]
                },
    {
        let n = self.rows.len();
        let mut i: usize = 0;
        while i < n
            invariant
                n == self.rows@.len(),
                old(self)@.len() == n,
                i <= n,
                self@ == self.rows@,
                forall|k: int|
                    i <= k < n ==> self@[k] == old(self)@[k],
                forall|k: int|
                    0 <= k < i ==> self@[k] == if (#[trigger] old(self)@[k]).guild_id == guild_id {
                        (GuildSettings { default_log_channel: channel, ..old(self)@[k] })
                    } else {
                        old(self)@[k]
                    },
            decreases n - i,
        {
            if self.rows[i].guild_id == guild_id {
                let updated = GuildSettings { default_log_channel: channel, ..self.rows[i] };
                self.rows.set(i, updated);
            }
            i = i + 1;
        }
        proof {
            assert forall|a: int| 0 <= a < self@.len() implies (#[trigger] self@[a]).wf() by {
                assert(old(self)@[a].wf());
                assert(self@[a] == if old(self)@[a].guild_id == guild_id { (GuildSettings { default_log_channel: channel, ..old(self)@[a] }) } else { old(self)@[a] });
            }
            assert forall|a: int, b: int|
                #![trigger self@[a].guild_id, self@[b].guild_id]
                0 <= a < self@.len() && 0 <= b < self@.len() && a != b implies self@[a].guild_id
                != self@[b].guild_id by {
                assert(old(self)@[a].guild_id != old(self)@[b].guild_id);
                assert(self@[a] == if old(self)@[a].guild_id == guild_id { (GuildSettings { default_log_channel: channel, ..old(self)@[a] }) } else { old(self)@[a] });
                assert(self@[b] == if old(self)@[b].guild_id == guild_id { (GuildSettings { default_log_channel: channel, ..old(self)@[b] }) } else { old(self)@[b] });
            }
        }
    }

    /// Replaces the guild's enabled-category mask; other rows stay.
    pub fn update_log_types(&mut self, guild_id: u64, mask: u32)
        requires
            old(self).wf(),
        ensures
            final(self).wf(),
            final(self)@.len() == old(self)@.len(),
            forall|i: int|
                0 <= i < old(self)@.len() ==> final(self)@[i] == if (#[trigger] old(self)@[i]).guild_id
                    == guild_id {
                    (GuildSettings { log_types: mask, ..old(self)@[i] })
                } else {
                    old(self)@[i]
                },
    {
        let n = self.rows.len();
        let mut i: usize = 0;
        while i < n
            invariant
                n == self.rows@.len(),
                old(self)@.len() == n,
                i <= n,
                self@ == self.rows@,
                forall|k: int|
                    i <= k < n ==> self@[k] == old(self)@[k],
                forall|k: int|
                    0 <= k < i ==> self@[k] == if (#[trigger] old(self)@[k]).guild_id == guild_id {
                        (GuildSettings { log_types: mask, ..old(self)@[k] })
                    } else {
                        old(self)@[k]
                    },
            decreases n - i,
        {
            if self.rows[i].guild_id == guild_id {
                let updated = GuildSettings { log_types: mask, ..self.rows[i] };
                self.rows.set(i, updated);
            }
            i = i + 1;
        }
        proof {
            assert forall|a: int| 0 <= a < self@.len() implies (#[trigger] self@[a]).wf() by {
                assert(old(self)@[a].wf());
                assert(self@[a] == if old(self)@[a].guild_id == guild_id { (GuildSettings { log_types: mask, ..old(self)@[a] }) } else { old(self)@[a] });
            }
            assert forall|a: int, b: int|
                #![trigger self@[a].guild_id, self@[b].guild_id]
                0 <= a < self@.len() && 0 <= b < self@.len() && a != b implies self@[a].guild_id
                != self@[b].guild_id by {
                assert(old(self)@[a].guild_id != old(self)@[b].guild_id);
                assert(self@[a] == if old(self)@[a].guild_id == guild_id { (GuildSettings { log_types: mask, ..old(self)@[a] }) } else { old(self)@[a] });
                assert(self@[b] == if old(self)@[b].guild_id == guild_id { (GuildSettings { log_types: mask, ..old(self)@[b] }) } else { old(self)@[b] });
            }
        }
    }

    /// Replaces the guild's default warning expiry; other rows stay.
    pub fn update_warn_expire_time(&mut self, guild_id: u64, days: u64)
        requires
            old(self).wf(),
            MIN_WARN_EXPIRE_DAYS <= days <= MAX_WARN_EXPIRE_DAYS,
        ensures
            final(self).wf(),
            final(self)@.len() == old(self)@.len(),
            forall|i: int|
                0 <= i < old(self)@.len() ==> final(self)@[i] == if (#[trigger] old(self)@[i]).guild_id
                    == guild_id {
                    (GuildSettings { warn_expire_time: days, ..old(self)@[i] })
                } else {
                    old(self)@[i]
                },
    {
        let n = self.rows.len();
        let mut i: usize = 0;
        while i < n
            invariant
                n == self.rows@.len(),
                old(self)@.len() == n,
                i <= n,
                self@ == self.rows@,
                MIN_WARN_EXPIRE_DAYS <= days <= MAX_WARN_EXPIRE_DAYS,
                forall|k: int|
                    i <= k < n ==> self@[k] == old(self)@[k],
                forall|k: int|
                    0 <= k < i ==> self@[k] == if (#[trigger] old(self)@[k]).guild_id == guild_id {
                        (GuildSettings { warn_expire_time: days, ..old(self)@[k] })
                    } else {
                        old(self)@[k]
                    },
            decreases n - i,
        {
            if self.rows[i].guild_id == guild_id {
                let updated = GuildSettings { warn_expire_time: days, ..self.rows[i] };
                self.rows.set(i, updated);
            }
            i = i + 1;
        }
        proof {
            assert forall|a: int| 0 <= a < self@.len() implies (#[trigger] self@[a]).wf() by {
                assert(old(self)@[a].wf());
                assert(self@[a] == if old(self)@[a].guild_id == guild_id { (GuildSettings { warn_expire_time: days, ..old(self)@[a] }) } else { old(self)@[a] });
            }
            assert forall|a: int, b: int|
                #![trigger self@[a].guild_id, self@[b].guild_id]
                0 <= a < self@.len() && 0 <= b < self@.len() && a != b implies self@[a].guild_id
                != self@[b].guild_id by {
                assert(old(self)@[a].guild_id != old(self)@[b].guild_id);
                assert(self@[a] == if old(self)@[a].guild_id == guild_id { (GuildSettings { warn_expire_time: days, ..old(self)@[a] }) } else { old(self)@[a] });
                assert(self@[b] == if old(self)@[b].guild_id == guild_id { (GuildSettings { warn_expire_time: days, ..old(self)@[b] }) } else { old(self)@[b] });
            }
        }
    }

    /// Sets the guild's display language, creating the row with defaults
    /// first when the guild has none.
    pub fn set_guild_language(&mut self, guild_id: u64, lang: Language)
        requires
            old(self).wf(),
        ensures
            final(self).wf(),
            forall|i: int|
                0 <= i < final(self)@.len() ==> ((#[trigger] final(self)@[i]).guild_id == guild_id
                    ==> final(self)@[i].lang == lang),
            has_guild(final(self)@, guild_id),
    {
        self.upsert_settings(guild_id);
        let n = self.rows.len();
        let ghost s0 = self@;
        let mut i: usize = 0;
        while i < n
            invariant
                n == self.rows@.len(),
                s0.len() == n,
                i <= n,
                self@ == self.rows@,
                forall|k: int|
                    i <= k < n ==> self@[k] == s0[k],
                forall|k: int|
                    0 <= k < i ==> self@[k] == if (#[trigger] s0[k]).guild_id == guild_id {
                        (GuildSettings { lang, ..s0[k] })
                    } else {
                        s0[k]
                    },
            decreases n - i,
        {
            if self.rows[i].guild_id == guild_id {
                let updated = GuildSettings { lang, ..self.rows[i] };
                self.rows.set(i, updated);
            }
            i = i + 1;
        }
        proof {
            let k = choose|k: int| 0 <= k < s0.len() && (#[trigger] s0[k]).guild_id == guild_id;
            assert(self@[k] == if s0[k].guild_id == guild_id { (GuildSettings { lang, ..s0[k] }) } else { s0[k] });
            assert(self@[k].guild_id == guild_id);
            assert forall|a: int| 0 <= a < self@.len() implies (#[trigger] self@[a]).wf() by {
                assert(s0[a].wf());
                assert(self@[a] == if s0[a].guild_id == guild_id { (GuildSettings { lang, ..s0[a] }) } else { s0[a] });
            }
            assert forall|a: int, b: int|
                #![trigger self@[a].guild_id, self@[b].guild_id]
                0 <= a < self@.len() && 0 <= b < self@.len() && a != b implies self@[a].guild_id
                != self@[b].guild_id by {
                assert(s0[a].guild_id != s0[b].guild_id);
                assert(self@[a] == if s0[a].guild_id == guild_id { (GuildSettings { lang, ..s0[a] }) } else { s0[a] });
                assert(self@[b] == if s0[b].guild_id == guild_id { (GuildSettings { lang, ..s0[b] }) } else { s0[b] });
            }
            assert forall|a: int|
                0 <= a < self@.len() implies ((#[trigger] self@[a]).guild_id == guild_id
                ==> self@[a].lang == lang) by {
                assert(self@[a] == if s0[a].guild_id == guild_id { (GuildSettings { lang, ..s0[a] }) } else { s0[a] });
            }
        }
    }
}

/// The row invariants at sequence level.
pub open spec fn wf_rows(s: Seq<GuildSettings>) -> bool {
    &&& forall|i: int| 0 <= i < s.len() ==> (#[trigger] s[i]).wf()
    &&& forall|i: int, j: int|
        #![trigger s[i].guild_id, s[j].guild_id]
        0 <= i < s.len() && 0 <= j < s.len() && i != j ==> s[i].guild_id != s[j].guild_id
}

/// One choice of the warning-expiry configuration menu.
#[derive(Clone, Copy, Debug, PartialEq, Eq, Structural)]
pub enum ExpireOption {
    /// A preset number of days; shown selected when it is the current
    /// value.
    Preset { days: u64, selected: bool },
    /// Enter a custom number of days.
    Custom,
    /// The current value when it is no preset, shown selected.
    Current { days: u64 },
}

/// The menu for the current expiry: the four presets with the current
/// one selected, the custom entry, and — when the current value is no
/// preset — the current value itself, selected.
pub open spec fn spec_warn_expire_options(current: u64) -> Seq<ExpireOption> {
    let base = seq![
        ExpireOption::Preset { days: 3, selected: current == 3 },
        ExpireOption::Preset { days: 7, selected: current == 7 },
        ExpireOption::Preset { days: 14, selected: current == 14 },
        ExpireOption::Preset { days: 30, selected: current == 30 },
        ExpireOption::Custom,
    ];
    if current != 3 && current != 7 && current != 14 && current != 30 {
        base.push(ExpireOption::Current { days: current })
    } else {
        base
    }
}

/// Builds the warning-expiry menu for the current value.
pub fn warn_expire_options(current: u64) -> (r: Vec<ExpireOption>)
    ensures
        r@ == spec_warn_expire_options(current),
{
    let mut r: Vec<ExpireOption> = Vec::new();
    r.push(ExpireOption::Preset { days: 3, selected: current == 3 });
    r.push(ExpireOption::Preset { days: 7, selected: current == 7 });
    r.push(ExpireOption::Preset { days: 14, selected: current == 14 });
    r.push(ExpireOption::Preset { days: 30, selected: current == 30 });
    r.push(ExpireOption::Custom);
    if current != 3 && current != 7 && current != 14 && current != 30 {
        r.push(ExpireOption::Current { days: current });
    }
    proof {
        assert(r@ =~= spec_warn_expire_options(current));
    }
    r
}

/// Why a configured warning expiry was refused.
#[derive(Clone, Copy, Debug, PartialEq, Eq, Structural)]
pub enum SettingsError {
    /// The input is not a plain number the menu can produce.
    InvalidNumber,
    /// The number of days lies under the minimum.
    TooFewDays,
}

/// The days a warning-expiry input stands for, or why it is refused:
/// not a one-to-three-digit number, or fewer days than the minimum.
pub open spec fn spec_validate_warn_expire(s: Seq<char>) -> Result<u64, SettingsError> {
    match spec_parse_decimal(s) {
        None => Err(SettingsError::InvalidNumber),
        Some(v) => if v > MAX_WARN_EXPIRE_DAYS {
            Err(SettingsError::InvalidNumber)
        } else if v < MIN_WARN_EXPIRE_DAYS {
            Err(SettingsError::TooFewDays)
        } else {
            Ok(v)
        },
    }
}

/// Validates a custom warning-expiry input.
pub fn validate_warn_expire_input(s: &str) -> (r: Result<u64, SettingsError>)
    ensures
        r == spec_validate_warn_expire(s@),
        r matches Ok(v) ==> MIN_WARN_EXPIRE_DAYS <= v <= MAX_WARN_EXPIRE_DAYS,
{
    match parse_decimal(s) {
        None => Err(SettingsError::InvalidNumber),
        Some(v) => {
            if v > MAX_WARN_EXPIRE_DAYS {
                Err(SettingsError::InvalidNumber)
            } else if v < MIN_WARN_EXPIRE_DAYS {
                Err(SettingsError::TooFewDays)
            } else {
                Ok(v)
            }
        },
    }
}

/// The channel a log-channel selection stands for: the word `none`
/// disables delivery, a number selects that channel, anything else is
/// refused.
pub open spec fn spec_parse_channel_selection(s: Seq<char>) -> Option<Option<u64>> {
    if s == "none"@ {
        Some(None)
    } else {
        match spec_parse_decimal(s) {
            Some(v) => Some(Some(v)),
            None => None,
        }
    }
}

/// Parses a log-channel selection.
pub fn parse_channel_selection(s: &str) -> (r: Option<Option<u64>>)
    ensures
        r == spec_parse_channel_selection(s@),
{
    if str_eq(s, "none") {
        Some(None)
    } else {
        match parse_decimal(s) {
            Some(v) => Some(Some(v)),
            None => None,
        }
    }
}

} // verus!

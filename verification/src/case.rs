//! Moderation case records.
//!
//! A case is one persisted moderation action against a user of a guild.
//! Case ids are unique within a guild, assigned sequentially from 1 and
//! never reused; a time-bounded case carries an end date strictly after
//! its creation time.

use vstd::prelude::*;

verus! {

/// The kinds of moderation action that are persisted as cases.
#[derive(Clone, Copy, Debug, PartialEq, Eq, Structural)]
pub enum CaseType {
    Ban,
    Kick,
    Mute,
    Warn,
}

/// The stable storage code of each case kind.
pub open spec fn case_code(t: CaseType) -> Seq<char> {
    match t {
        CaseType::Ban => "BAN"@,
        CaseType::Kick => "KICK"@,
        CaseType::Mute => "MUTE"@,
        CaseType::Warn => "WARN"@,
    }
}

/// The case kind a storage code stands for, if any.
pub open spec fn case_type_of_code(s: Seq<char>) -> Option<CaseType> {
    if s == "BAN"@ {
        Some(CaseType::Ban)
    } else if s == "KICK"@ {
        Some(CaseType::Kick)
    } else if s == "MUTE"@ {
        Some(CaseType::Mute)
    } else if s == "WARN"@ {
        Some(CaseType::Warn)
    } else {
        None
    }
}

impl CaseType {
    /// The storage code of this kind.
    pub fn code(&self) -> (r: &'static str)
        ensures
            r@ == case_code(*self),
    {
        match self {
            CaseType::Ban => "BAN",
            CaseType::Kick => "KICK",
            CaseType::Mute => "MUTE",
            CaseType::Warn => "WARN",
        }
    }

    /// Parses a storage code back into the case kind.
    pub fn from_code(s: &str) -> (r: Option<CaseType>)
        ensures
            r == case_type_of_code(s@),
    {
        if crate::strings::str_eq(s, "BAN") {
            Some(CaseType::Ban)
        } else if crate::strings::str_eq(s, "KICK") {
            Some(CaseType::Kick)
        } else if crate::strings::str_eq(s, "MUTE") {
            Some(CaseType::Mute)
        } else if crate::strings::str_eq(s, "WARN") {
            Some(CaseType::Warn)
        } else {
            None
        }
    }
}

/// One persisted moderation action. Identifiers are the platform's opaque
/// 64-bit values; times are seconds since the epoch.
pub struct Case {
    pub guild_id: u64,
    pub user_id: u64,
    pub moderator_id: u64,
    pub case_id: u32,
    pub case_type: CaseType,
    pub reason: Option<String>,
    pub created_at: u64,
    pub end_date: Option<u64>,
    pub points: Option<u32>,
}

impl Case {
    /// Well-formedness of a single record: ids start at 1, an end date lies
    /// strictly after creation, mutes are always time-bounded, and only
    /// warnings carry points.
    pub open spec fn wf(self) -> bool {
        &&& self.case_id >= 1
        &&& (self.end_date matches Some(e) ==> e > self.created_at)
        &&& (self.case_type == CaseType::Mute ==> self.end_date is Some)
        &&& (self.points is Some ==> self.case_type == CaseType::Warn)
    }
}

impl Clone for Case {
    fn clone(&self) -> (r: Self)
        ensures
            r == *self,
    {
        Case {
            guild_id: self.guild_id,
            user_id: self.user_id,
            moderator_id: self.moderator_id,
            case_id: self.case_id,
            case_type: self.case_type,
            reason: match &self.reason {
                Some(s) => Some(s.clone()),
                None => None,
            },
            created_at: self.created_at,
            end_date: self.end_date,
            points: self.points,
        }
    }
}

} // verus!

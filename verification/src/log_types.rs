//! Log categories and the per-guild enabled-category bitmask.
//!
//! Each moderation action kind owns one bit of a 12-bit mask stored in the
//! guild's settings. A category is active iff its bit is set; toggling
//! replaces the whole selection, several categories coexist.

use vstd::prelude::*;
use crate::strings::str_eq;

verus! {

/// One loggable moderation action kind. Each kind owns a single bit of the
/// enabled-category mask of a guild.
#[derive(Clone, Copy, Debug, PartialEq, Eq, Structural)]
pub enum LogType {
    ClearMessages,
    ClearChannel,
    Mute,
    Unmute,
    Kick,
    Lock,
    Unlock,
    Ban,
    Unban,
    Warn,
    RemoveWarn,
    RemoveMultipleWarns,
}

/// Position of the category's bit inside the mask.
pub open spec fn bit_index(t: LogType) -> u32 {
    match t {
        LogType::ClearMessages => 0,
        LogType::ClearChannel => 1,
        LogType::Mute => 2,
        LogType::Unmute => 3,
        LogType::Kick => 4,
        LogType::Lock => 5,
        LogType::Unlock => 6,
        LogType::Ban => 7,
        LogType::Unban => 8,
        LogType::Warn => 9,
        LogType::RemoveWarn => 10,
        LogType::RemoveMultipleWarns => 11,
    }
}

/// The category's bit as a mask value.
pub open spec fn bit_of(t: LogType) -> u32 {
    1u32 << bit_index(t)
}

/// A category is active iff its bit is set in the mask.
pub open spec fn spec_is_active(mask: u32, t: LogType) -> bool {
    mask & bit_of(t) != 0
}

/// The category of a given bit position; inverse of `bit_index`.
pub open spec fn category_at(i: u32) -> LogType {
    if i == 0 {
        LogType::ClearMessages
    } else if i == 1 {
        LogType::ClearChannel
    } else if i == 2 {
        LogType::Mute
    } else if i == 3 {
        LogType::Unmute
    } else if i == 4 {
        LogType::Kick
    } else if i == 5 {
        LogType::Lock
    } else if i == 6 {
        LogType::Unlock
    } else if i == 7 {
        LogType::Ban
    } else if i == 8 {
        LogType::Unban
    } else if i == 9 {
        LogType::Warn
    } else if i == 10 {
        LogType::RemoveWarn
    } else {
        LogType::RemoveMultipleWarns
    }
}

/// `category_at` undoes `bit_index`, so `bit_index` is injective.
pub proof fn lemma_bit_index_injective(t: LogType)
    ensures
        category_at(bit_index(t)) == t,
        bit_index(t) < 12,
{
    match t {
        LogType::ClearMessages => {},
        LogType::ClearChannel => {},
        LogType::Mute => {},
        LogType::Unmute => {},
        LogType::Kick => {},
        LogType::Lock => {},
        LogType::Unlock => {},
        LogType::Ban => {},
        LogType::Unban => {},
        LogType::Warn => {},
        LogType::RemoveWarn => {},
        LogType::RemoveMultipleWarns => {},
    }
}

/// Bits of distinct categories do not overlap.
pub proof fn lemma_bits_disjoint(a: LogType, b: LogType)
    requires
        a != b,
    ensures
        bit_of(a) & bit_of(b) == 0,
{
    lemma_bit_index_injective(a);
    lemma_bit_index_injective(b);
    let i = bit_index(a);
    let j = bit_index(b);
    assert(i != j);
    assert(i < 12 && j < 12 && i != j ==> (1u32 << i) & (1u32 << j) == 0) by (bit_vector);
}

impl LogType {
    /// The bit this category owns in the enabled-category mask.
    pub fn as_bit(&self) -> (r: u32)
        ensures
            r == bit_of(*self),
    {
        let i: u32 = match self {
            LogType::ClearMessages => 0,
            LogType::ClearChannel => 1,
            LogType::Mute => 2,
            LogType::Unmute => 3,
            LogType::Kick => 4,
            LogType::Lock => 5,
            LogType::Unlock => 6,
            LogType::Ban => 7,
            LogType::Unban => 8,
            LogType::Warn => 9,
            LogType::RemoveWarn => 10,
            LogType::RemoveMultipleWarns => 11,
        };
        1u32 << i
    }
}

/// The stable wire name of each category, as stored and parsed.
pub open spec fn category_name(t: LogType) -> Seq<char> {
    match t {
        LogType::ClearMessages => "ClearMessages"@,
        LogType::ClearChannel => "ClearChannel"@,
        LogType::Mute => "Mute"@,
        LogType::Unmute => "Unmute"@,
        LogType::Kick => "Kick"@,
        LogType::Lock => "Lock"@,
        LogType::Unlock => "Unlock"@,
        LogType::Ban => "Ban"@,
        LogType::Unban => "Unban"@,
        LogType::Warn => "Warn"@,
        LogType::RemoveWarn => "RemoveWarn"@,
        LogType::RemoveMultipleWarns => "RemoveMultipleWarns"@,
    }
}

/// The category a wire name stands for, if any.
pub open spec fn category_of_name(s: Seq<char>) -> Option<LogType> {
    if s == "ClearMessages"@ {
        Some(LogType::ClearMessages)
    } else if s == "ClearChannel"@ {
        Some(LogType::ClearChannel)
    } else if s == "Mute"@ {
        Some(LogType::Mute)
    } else if s == "Unmute"@ {
        Some(LogType::Unmute)
    } else if s == "Kick"@ {
        Some(LogType::Kick)
    } else if s == "Lock"@ {
        Some(LogType::Lock)
    } else if s == "Unlock"@ {
        Some(LogType::Unlock)
    } else if s == "Ban"@ {
        Some(LogType::Ban)
    } else if s == "Unban"@ {
        Some(LogType::Unban)
    } else if s == "Warn"@ {
        Some(LogType::Warn)
    } else if s == "RemoveWarn"@ {
        Some(LogType::RemoveWarn)
    } else if s == "RemoveMultipleWarns"@ {
        Some(LogType::RemoveMultipleWarns)
    } else {
        None
    }
}

impl LogType {
    /// The category's wire name.
    pub fn name(&self) -> (r: &'static str)
        ensures
            r@ == category_name(*self),
    {
        match self {
            LogType::ClearMessages => "ClearMessages",
            LogType::ClearChannel => "ClearChannel",
            LogType::Mute => "Mute",
            LogType::Unmute => "Unmute",
            LogType::Kick => "Kick",
            LogType::Lock => "Lock",
            LogType::Unlock => "Unlock",
            LogType::Ban => "Ban",
            LogType::Unban => "Unban",
            LogType::Warn => "Warn",
            LogType::RemoveWarn => "RemoveWarn",
            LogType::RemoveMultipleWarns => "RemoveMultipleWarns",
        }
    }
}

/// Parses a category's wire name.
pub fn string_to_log_type(s: &str) -> (r: Option<LogType>)
    ensures
        r == category_of_name(s@),
{
    if str_eq(s, "ClearMessages") {
        Some(LogType::ClearMessages)
    } else if str_eq(s, "ClearChannel") {
        Some(LogType::ClearChannel)
    } else if str_eq(s, "Mute") {
        Some(LogType::Mute)
    } else if str_eq(s, "Unmute") {
        Some(LogType::Unmute)
    } else if str_eq(s, "Kick") {
        Some(LogType::Kick)
    } else if str_eq(s, "Lock") {
        Some(LogType::Lock)
    } else if str_eq(s, "Unlock") {
        Some(LogType::Unlock)
    } else if str_eq(s, "Ban") {
        Some(LogType::Ban)
    } else if str_eq(s, "Unban") {
        Some(LogType::Unban)
    } else if str_eq(s, "Warn") {
        Some(LogType::Warn)
    } else if str_eq(s, "RemoveWarn") {
        Some(LogType::RemoveWarn)
    } else if str_eq(s, "RemoveMultipleWarns") {
        Some(LogType::RemoveMultipleWarns)
    } else {
        None
    }
}

/// All twelve categories, in bit order.
pub fn all_categories() -> (r: Vec<LogType>)
    ensures
        r@.len() == 12,
        forall|i: int| 0 <= i < 12 ==> bit_index(#[trigger] r@[i]) == i,
{
    let mut v: Vec<LogType> = Vec::new();
    v.push(LogType::ClearMessages);
    v.push(LogType::ClearChannel);
    v.push(LogType::Mute);
    v.push(LogType::Unmute);
    v.push(LogType::Kick);
    v.push(LogType::Lock);
    v.push(LogType::Unlock);
    v.push(LogType::Ban);
    v.push(LogType::Unban);
    v.push(LogType::Warn);
    v.push(LogType::RemoveWarn);
    v.push(LogType::RemoveMultipleWarns);
    v
}

/// Whether the category's bit is set in the mask.
pub fn is_active(mask: u32, t: LogType) -> (r: bool)
    ensures
        r == spec_is_active(mask, t),
{
    mask & t.as_bit() != 0
}

/// The categories whose bits are set in the mask, in bit order.
pub fn get_active_categories(mask: u32) -> (r: Vec<LogType>)
    ensures
        forall|t: LogType| r@.contains(t) <==> spec_is_active(mask, t),
        forall|i: int, j: int| 0 <= i < j < r@.len() ==> bit_index(r@[i]) < bit_index(r@[j]),
{
    let all = all_categories();
    let mut r: Vec<LogType> = Vec::new();
    let mut k: usize = 0;
    while k < all.len()
        invariant
            all@.len() == 12,
            forall|i: int| 0 <= i < 12 ==> bit_index(#[trigger] all@[i]) == i,
            k <= 12,
            forall|t: LogType| r@.contains(t) <==> (spec_is_active(mask, t) && bit_index(t) < k),
            forall|i: int, j: int| 0 <= i < j < r@.len() ==> bit_index(r@[i]) < bit_index(r@[j]),
            forall|i: int| 0 <= i < r@.len() ==> bit_index(#[trigger] r@[i]) < k,
        decreases 12 - k,
    {
        let t = all[k];
        let ghost r_old = r@;
        if is_active(mask, t) {
            r.push(t);
        }
        proof {
            assert(bit_index(t) == k);
            assert forall|u: LogType| r@.contains(u) implies (spec_is_active(mask, u) && bit_index(
                u,
            ) < k + 1) by {
                let i = choose|i: int| 0 <= i < r@.len() && #[trigger] r@[i] == u;
                if i < r_old.len() {
                    assert(r_old[i] == u);
                    assert(r_old.contains(u));
                } else {
                    assert(u == t);
                }
            }
            assert forall|u: LogType| (spec_is_active(mask, u) && bit_index(u) < k + 1) implies r@
                .contains(u) by {
                if bit_index(u) < k {
                    assert(r_old.contains(u));
                    let i = choose|i: int| 0 <= i < r_old.len() && #[trigger] r_old[i] == u;
                    assert(r@[i] == u);
                } else {
                    lemma_bit_index_injective(u);
                    lemma_bit_index_injective(t);
                    assert(u == t);
                    assert(r@[r@.len() - 1] == u);
                }
            }
        }
        k = k + 1;
    }
    r
}

/// The mask encoding exactly the given selection of categories; any earlier
/// mask value is wholly replaced by the selection.
pub fn set_categories(mask: u32, selected: &Vec<LogType>) -> (r: u32)
    ensures
        forall|t: LogType| spec_is_active(r, t) <==> selected@.contains(t),
{
    let mut r: u32 = 0;
    let mut k: usize = 0;
    proof {
        assert(forall|t: LogType| !spec_is_active(0u32, t)) by {
            assert(forall|b: u32| 0u32 & b == 0) by (bit_vector);
        }
    }
    while k < selected.len()
        invariant
            k <= selected@.len(),
            forall|t: LogType| spec_is_active(r, t) <==> selected@.subrange(0, k as int).contains(t),
        decreases selected@.len() - k,
    {
        let t = selected[k];
        let ghost old_r = r;
        r = r | t.as_bit();
        proof {
            let bt: u32 = bit_of(t);
            let sel0 = selected@.subrange(0, k as int);
            let sel1 = selected@.subrange(0, k as int + 1);
            assert forall|u: LogType| spec_is_active(r, u) implies sel1.contains(u) by {
                let bu: u32 = bit_of(u);
                assert(((old_r | bt) & bu != 0) ==> (old_r & bu != 0) || (bt & bu != 0))
                    by (bit_vector);
                if old_r & bu != 0 {
                    assert(spec_is_active(old_r, u));
                    assert(sel0.contains(u));
                    let i = choose|i: int| 0 <= i < sel0.len() && #[trigger] sel0[i] == u;
                    assert(sel0[i] == selected@[i]);
                    assert(sel1[i] == selected@[i]);
                    assert(sel1.contains(u));
                } else {
                    if t != u {
                        lemma_bits_disjoint(t, u);
                    }
                    assert(t == u);
                    assert(sel1[k as int] == selected@[k as int]);
                    assert(sel1.contains(u));
                }
            }
            assert forall|u: LogType| sel1.contains(u) implies spec_is_active(r, u) by {
                let bu: u32 = bit_of(u);
                let i = choose|i: int| 0 <= i < sel1.len() && #[trigger] sel1[i] == u;
                assert(sel1[i] == selected@[i]);
                if i < k {
                    assert(sel0[i] == selected@[i]);
                    assert(sel0.contains(u));
                    assert(spec_is_active(old_r, u));
                    assert((old_r & bu != 0) ==> ((old_r | bt) & bu != 0)) by (bit_vector);
                } else {
                    assert(u == t);
                    lemma_bit_index_injective(t);
                    let n = bit_index(t);
                    assert(n < 12 ==> ((old_r | (1u32 << n)) & (1u32 << n)) != 0) by (bit_vector);
                }
            }
        }
        k = k + 1;
    }
    proof {
        assert(selected@.subrange(0, selected@.len() as int) =~= selected@);
    }
    r
}

/// Replacing a mask by a selection and reading the active categories back
/// yields exactly the selection: for every starting mask, a category is
/// active in `set_categories(mask, selected)` iff it was selected.
pub proof fn lemma_set_get_round_trip(mask: u32, selected: Seq<LogType>, r: u32, active: Seq<LogType>)
    requires
        forall|t: LogType| spec_is_active(r, t) <==> selected.contains(t),
        forall|t: LogType| active.contains(t) <==> spec_is_active(r, t),
    ensures
        active.to_set() == selected.to_set(),
{
    assert forall|t: LogType| active.to_set().contains(t) <==> selected.to_set().contains(t) by {
        assert(active.to_set().contains(t) <==> active.contains(t));
        assert(selected.to_set().contains(t) <==> selected.contains(t));
    }
    assert(active.to_set() =~= selected.to_set());
}

} // verus!

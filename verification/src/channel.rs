//! Channel lock and unlock: the permission-overwrite arithmetic.
//!
//! Locking a channel denies the everyone role the two send permissions
//! in its overwrite entry; unlocking removes the denials and allows
//! sending again. The decision works on the overwrite's plain permission
//! bits; fetching the channel and writing the edited overwrites back is
//! the caller's part.

use vstd::prelude::*;

verus! {

/// The send-messages permission bit of the platform's permission set.
pub const SEND_MESSAGES: u64 = 0x800;

/// The send-messages-in-threads permission bit.
pub const SEND_MESSAGES_IN_THREADS: u64 = 0x4000000000;

/// Both send permission bits together.
pub const SEND_BITS: u64 = 0x4000000800;

/// The everyone role's overwrite entry of a channel: which permissions
/// it explicitly allows and which it explicitly denies.
#[derive(Clone, Copy, Debug, PartialEq, Eq, Structural)]
pub struct OverwriteState {
    pub allow: u64,
    pub deny: u64,
}

/// What a lock request decides.
#[derive(Clone, Copy, Debug, PartialEq, Eq, Structural)]
pub enum LockDecision {
    /// The overwrite already denies sending: nothing to do, tell the
    /// caller the channel is already locked.
    AlreadyLocked,
    /// Write this overwrite entry for the everyone role.
    Apply(OverwriteState),
}

/// The lock decision: an existing entry that already denies sending is
/// refused; otherwise the entry (or a fresh empty one) has both send
/// bits denied and removed from its allows.
pub open spec fn spec_plan_lock(everyone: Option<OverwriteState>) -> LockDecision {
    match everyone {
        Some(o) => if o.deny & SEND_MESSAGES != 0 {
            LockDecision::AlreadyLocked
        } else {
            LockDecision::Apply(
                OverwriteState { allow: o.allow & !SEND_BITS, deny: o.deny | SEND_BITS },
            )
        },
        None => LockDecision::Apply(OverwriteState { allow: 0, deny: SEND_BITS }),
    }
}

/// Decides a lock request from the everyone role's current overwrite
/// entry, if the channel has one.
pub fn plan_lock(everyone: Option<OverwriteState>) -> (r: LockDecision)
    ensures
        r == spec_plan_lock(everyone),
        r matches LockDecision::Apply(o) ==> o.deny & SEND_BITS == SEND_BITS && o.allow & SEND_BITS
            == 0,
{
    let r = match everyone {
        Some(o) => {
            if o.deny & SEND_MESSAGES != 0 {
                LockDecision::AlreadyLocked
            } else {
                LockDecision::Apply(
                    OverwriteState { allow: o.allow & !SEND_BITS, deny: o.deny | SEND_BITS },
                )
            }
        },
        None => LockDecision::Apply(OverwriteState { allow: 0, deny: SEND_BITS }),
    };
    proof {
        match r {
            LockDecision::Apply(o) => {
                match everyone {
                    Some(e) => {
                        let a: u64 = e.allow;
                        let d: u64 = e.deny;
                        assert((d | 0x4000000800u64) & 0x4000000800u64 == 0x4000000800u64 && (a
                            & !0x4000000800u64) & 0x4000000800u64 == 0) by (bit_vector);
                    },
                    None => {
                        assert(0x4000000800u64 & 0x4000000800u64 == 0x4000000800u64 && 0u64
                            & 0x4000000800u64 == 0) by (bit_vector);
                    },
                }
            },
            LockDecision::AlreadyLocked => {},
        }
    }
    r
}

/// What an unlock request decides.
#[derive(Clone, Copy, Debug, PartialEq, Eq, Structural)]
pub enum UnlockDecision {
    /// No entry, or one that does not deny sending: already unlocked.
    AlreadyUnlocked,
    /// Write this overwrite entry for the everyone role.
    Apply(OverwriteState),
}

/// The unlock decision: only an entry that denies sending is changed —
/// the send bits leave the denies and join the allows.
pub open spec fn spec_plan_unlock(everyone: Option<OverwriteState>) -> UnlockDecision {
    match everyone {
        Some(o) => if o.deny & SEND_MESSAGES != 0 {
            UnlockDecision::Apply(
                OverwriteState { allow: o.allow | SEND_BITS, deny: o.deny & !SEND_BITS },
            )
        } else {
            UnlockDecision::AlreadyUnlocked
        },
        None => UnlockDecision::AlreadyUnlocked,
    }
}

/// Decides an unlock request from the everyone role's current overwrite
/// entry, if the channel has one.
pub fn plan_unlock(everyone: Option<OverwriteState>) -> (r: UnlockDecision)
    ensures
        r == spec_plan_unlock(everyone),
        r matches UnlockDecision::Apply(o) ==> o.allow & SEND_BITS == SEND_BITS && o.deny
            & SEND_BITS == 0,
{
    let r = match everyone {
        Some(o) => {
            if o.deny & SEND_MESSAGES != 0 {
                UnlockDecision::Apply(
                    OverwriteState { allow: o.allow | SEND_BITS, deny: o.deny & !SEND_BITS },
                )
            } else {
                UnlockDecision::AlreadyUnlocked
            }
        },
        None => UnlockDecision::AlreadyUnlocked,
    };
    proof {
        match r {
            UnlockDecision::Apply(o) => {
                match everyone {
                    Some(e) => {
                        let a: u64 = e.allow;
                        let d: u64 = e.deny;
                        assert((a | 0x4000000800u64) & 0x4000000800u64 == 0x4000000800u64 && (d
                            & !0x4000000800u64) & 0x4000000800u64 == 0) by (bit_vector);
                    },
                    None => {},
                }
            },
            UnlockDecision::AlreadyUnlocked => {},
        }
    }
    r
}

/// Law: locking and then unlocking the same entry restores the right to
/// send: the unlock of a lock's result always applies, with both send
/// bits allowed and no send bit denied.
pub proof fn lemma_lock_then_unlock(everyone: Option<OverwriteState>)
    requires
        spec_plan_lock(everyone) matches LockDecision::Apply(o),
    ensures
        (spec_plan_lock(everyone) matches LockDecision::Apply(o) ==> spec_plan_unlock(Some(o))
            matches UnlockDecision::Apply(u) && u.allow & SEND_BITS == SEND_BITS && u.deny
            & SEND_BITS == 0),
{
    let o = match spec_plan_lock(everyone) {
        LockDecision::Apply(o) => o,
        LockDecision::AlreadyLocked => arbitrary(),
    };
    assert(o.deny & SEND_MESSAGES != 0) by {
        match everyone {
            Some(e) => {
                let d: u64 = e.deny;
                assert((d | 0x4000000800u64) & 0x800u64 != 0) by (bit_vector);
            },
            None => {
                assert(0x4000000800u64 & 0x800u64 != 0) by (bit_vector);
            },
        }
    }
    let a: u64 = o.allow;
    let d: u64 = o.deny;
    assert((a | 0x4000000800u64) & 0x4000000800u64 == 0x4000000800u64 && (d & !0x4000000800u64)
        & 0x4000000800u64 == 0) by (bit_vector);
}

} // verus!

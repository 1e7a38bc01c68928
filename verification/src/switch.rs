//! The privilege switch controller: ordered, all-or-nothing changes to the
//! process's real and effective user and group ids, and a scoped restoration
//! guard that reverts a switch exactly once.

use vstd::prelude::*;
use crate::creds::{
    CredEvent, CredOracle, CredState, SystemError, with_both_gid, with_both_uid, with_eff_gid,
    with_eff_uid, with_real_gid, with_real_uid,
};

verus! {

/// Sets the real uid of the process. On failure the credential state is
/// left exactly as it was.
pub fn set_current_uid<C: CredOracle>(creds: &mut C, uid: u32) -> (r: Result<(), SystemError>)
    ensures
        (match r {
            Ok(_) => final(creds).st() == with_real_uid(old(creds).st(), uid),
            Err(_) => final(creds).st() == old(creds).st(),
        }),
{
    creds.set_real_uid(uid)
}

/// Sets the real gid of the process. On failure the credential state is
/// left exactly as it was.
pub fn set_current_gid<C: CredOracle>(creds: &mut C, gid: u32) -> (r: Result<(), SystemError>)
    ensures
        (match r {
            Ok(_) => final(creds).st() == with_real_gid(old(creds).st(), gid),
            Err(_) => final(creds).st() == old(creds).st(),
        }),
{
    creds.set_real_gid(gid)
}

/// Sets the effective uid of the process. On failure the credential state is
/// left exactly as it was.
pub fn set_effective_uid<C: CredOracle>(creds: &mut C, uid: u32) -> (r: Result<(), SystemError>)
    ensures
        (match r {
            Ok(_) => final(creds).st() == with_eff_uid(old(creds).st(), uid),
            Err(_) => final(creds).st() == old(creds).st(),
        }),
{
    creds.set_eff_uid(uid)
}

/// Sets the effective gid of the process. On failure the credential state is
/// left exactly as it was.
pub fn set_effective_gid<C: CredOracle>(creds: &mut C, gid: u32) -> (r: Result<(), SystemError>)
    ensures
        (match r {
            Ok(_) => final(creds).st() == with_eff_gid(old(creds).st(), gid),
            Err(_) => final(creds).st() == old(creds).st(),
        }),
{
    creds.set_eff_gid(gid)
}

/// Sets the real and effective uid together, through the oracle's combined
/// change, so that no state with only one of the pair changed is ever left
/// behind. On failure the credential state is left exactly as it was.
pub fn set_both_uid<C: CredOracle>(creds: &mut C, ruid: u32, euid: u32) -> (r: Result<
    (),
    SystemError,
>)
    ensures
        (match r {
            Ok(_) => final(creds).st() == with_both_uid(old(creds).st(), ruid, euid),
            Err(_) => final(creds).st() == old(creds).st(),
        }),
{
    creds.set_real_eff_uid(ruid, euid)
}

/// Sets the real and effective gid together, through the oracle's combined
/// change, so that no state with only one of the pair changed is ever left
/// behind. On failure the credential state is left exactly as it was.
pub fn set_both_gid<C: CredOracle>(creds: &mut C, rgid: u32, egid: u32) -> (r: Result<
    (),
    SystemError,
>)
    ensures
        (match r {
            Ok(_) => final(creds).st() == with_both_gid(old(creds).st(), rgid, egid),
            Err(_) => final(creds).st() == old(creds).st(),
        }),
{
    creds.set_real_eff_gid(rgid, egid)
}

/// Guard returned from a [`switch_user_group`] call: a snapshot of the
/// pre-switch effective uid and gid. Releasing the guard restores them.
/// Release consumes the guard, so a guard can never restore more than once.
#[derive(Debug)]
pub struct SwitchUserGuard {
    uid: u32,
    gid: u32,
}

impl SwitchUserGuard {
    /// The effective uid the guard will restore: the one in place before the
    /// switch.
    pub closed spec fn snapshot_uid(&self) -> u32 {
        self.uid
    }

    /// The effective gid the guard will restore: the one in place before the
    /// switch.
    pub closed spec fn snapshot_gid(&self) -> u32 {
        self.gid
    }

    /// Reads the snapshot's effective uid.
    pub fn uid(&self) -> (r: u32)
        ensures
            r == self.snapshot_uid(),
    {
        self.uid
    }

    /// Reads the snapshot's effective gid.
    pub fn gid(&self) -> (r: u32)
        ensures
            r == self.snapshot_gid(),
    {
        self.gid
    }

    /// Restores the snapshot: user first, then group, the exact reverse of
    /// the order a switch applies, so that the privilege needed to revert the
    /// group change is regained first. A restoration failure is contained:
    /// it is not propagated, since no caller frame can usefully recover by
    /// the time restoration runs; each half that the oracle accepts is
    /// applied even when the other half is refused.
    pub fn release<C: CredOracle>(self, creds: &mut C)
        ensures
            ({
                let pre = old(creds).st();
                let post = final(creds).st();
                &&& post.ruid == pre.ruid
                &&& post.rgid == pre.rgid
                &&& post.supp_gids == pre.supp_gids
                &&& (post == with_eff_gid(with_eff_uid(pre, self.snapshot_uid()), self.snapshot_gid())
                    || post == with_eff_uid(pre, self.snapshot_uid()) || post == with_eff_gid(
                    pre,
                    self.snapshot_gid(),
                ) || post == pre)
            }),
    {
        let _ = creds.set_eff_uid(self.uid);
        let _ = creds.set_eff_gid(self.gid);
    }
}

/// Switches the effective identity of the process to the given uid and gid,
/// group before user: the group is changed first, while the original user's
/// privilege is still in place. On success, returns a [`SwitchUserGuard`]
/// holding the pre-switch effective uid and gid. On failure, no change is
/// left in place: if the gid half is refused nothing was attempted after it,
/// and if the uid half is refused the gid change is rolled back (the rollback
/// itself may be refused by the oracle; the effective uid is unchanged on
/// every failure path).
pub fn switch_user_group<C: CredOracle>(creds: &mut C, uid: u32, gid: u32) -> (r: Result<
    SwitchUserGuard,
    SystemError,
>)
    ensures
        ({
            let pre = old(creds).st();
            let post = final(creds).st();
            &&& post.ruid == pre.ruid
            &&& post.rgid == pre.rgid
            &&& post.supp_gids == pre.supp_gids
            &&& (match r {
                Ok(g) => g.snapshot_uid() == pre.euid && g.snapshot_gid() == pre.egid && post
                    == with_eff_uid(with_eff_gid(pre, gid), uid),
                Err(_) => post.euid == pre.euid && (post == pre || post == with_eff_gid(
                    with_eff_gid(pre, gid),
                    pre.egid,
                ) || post == with_eff_gid(pre, gid)),
            })
        }),
{
    let snapshot_uid = creds.effective_uid();
    let snapshot_gid = creds.effective_gid();
    match creds.set_eff_gid(gid) {
        Err(e) => Err(e),
        Ok(_) => {
            match creds.set_eff_uid(uid) {
                Ok(_) => Ok(SwitchUserGuard { uid: snapshot_uid, gid: snapshot_gid }),
                Err(e) => {
                    // Roll the group half back so no partial change is left;
                    // the oracle may refuse the rollback, in which case only
                    // the gid differs and the uid is still untouched.
                    let _ = creds.set_eff_gid(snapshot_gid);
                    Err(e)
                },
            }
        },
    }
}

/// Switch/restore law: a successful switch to `(uid1, gid1)` followed by a
/// successful release of its guard returns the effective uid and gid to
/// exactly their starting values, leaves the real ids untouched, and records
/// the credential-changed events group-then-user for the switch and
/// user-then-group for the restore.
pub proof fn lemma_switch_restore(c0: CredState, uid1: u32, gid1: u32, c1: CredState, c2: CredState)
    requires
        c1 == with_eff_uid(with_eff_gid(c0, gid1), uid1),
        c2 == with_eff_gid(with_eff_uid(c1, c0.euid), c0.egid),
    ensures
        c2.euid == c0.euid,
        c2.egid == c0.egid,
        c2.ruid == c0.ruid,
        c2.rgid == c0.rgid,
        c2.trace == c0.trace + seq![
            CredEvent::EffGid(gid1),
            CredEvent::EffUid(uid1),
            CredEvent::EffUid(c0.euid),
            CredEvent::EffGid(c0.egid),
        ],
{
    assert(c2.trace =~= c0.trace + seq![
        CredEvent::EffGid(gid1),
        CredEvent::EffUid(uid1),
        CredEvent::EffUid(c0.euid),
        CredEvent::EffGid(c0.egid),
    ]);
}

/// Failure atomicity of a switch: if the gid half is refused, nothing has
/// changed at all; on every failed switch the effective uid is unchanged.
pub proof fn lemma_switch_failure_atomic(c0: CredState, gid1: u32, c1: CredState)
    requires
        c1 == c0 || c1 == with_eff_gid(with_eff_gid(c0, gid1), c0.egid) || c1 == with_eff_gid(
            c0,
            gid1,
        ),
    ensures
        c1.euid == c0.euid,
        c1.ruid == c0.ruid,
        c1.rgid == c0.rgid,
{
}

} // verus!

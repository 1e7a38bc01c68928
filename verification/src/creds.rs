//! The credential-mutation oracle interface and the model of the process's
//! credential state.
//!
//! A process has exactly one real uid, effective uid, real gid and effective
//! gid. The oracle is the narrow interface through which they are read and
//! changed; every successful change is recorded as a [`CredEvent`] in the
//! state's trace, so that contracts can speak about the order in which
//! changes were applied.

use vstd::prelude::*;

verus! {

/// One successful credential change, as reported by the mutation oracle.
#[derive(Clone, Copy, Debug, PartialEq, Eq, Structural)]
pub enum CredEvent {
    /// The real uid was set.
    RealUid(u32),
    /// The effective uid was set.
    EffUid(u32),
    /// The real and effective uid were set together.
    BothUid(u32, u32),
    /// The real gid was set.
    RealGid(u32),
    /// The effective gid was set.
    EffGid(u32),
    /// The real and effective gid were set together.
    BothGid(u32, u32),
}

/// The mathematical state of the process's credentials: the four ids, the
/// supplementary group list, and the trace of applied changes.
#[verifier::ext_equal]
pub ghost struct CredState {
    pub ruid: u32,
    pub euid: u32,
    pub rgid: u32,
    pub egid: u32,
    pub supp_gids: Seq<u32>,
    pub trace: Seq<CredEvent>,
}

/// The state after successfully setting the real uid.
pub open spec fn with_real_uid(c: CredState, uid: u32) -> CredState {
    CredState { ruid: uid, trace: c.trace.push(CredEvent::RealUid(uid)), ..c }
}

/// The state after successfully setting the effective uid.
pub open spec fn with_eff_uid(c: CredState, uid: u32) -> CredState {
    CredState { euid: uid, trace: c.trace.push(CredEvent::EffUid(uid)), ..c }
}

/// The state after successfully setting the real and effective uid together.
pub open spec fn with_both_uid(c: CredState, ruid: u32, euid: u32) -> CredState {
    CredState { ruid, euid, trace: c.trace.push(CredEvent::BothUid(ruid, euid)), ..c }
}

/// The state after successfully setting the real gid.
pub open spec fn with_real_gid(c: CredState, gid: u32) -> CredState {
    CredState { rgid: gid, trace: c.trace.push(CredEvent::RealGid(gid)), ..c }
}

/// The state after successfully setting the effective gid.
pub open spec fn with_eff_gid(c: CredState, gid: u32) -> CredState {
    CredState { egid: gid, trace: c.trace.push(CredEvent::EffGid(gid)), ..c }
}

/// The state after successfully setting the real and effective gid together.
pub open spec fn with_both_gid(c: CredState, rgid: u32, egid: u32) -> CredState {
    CredState { rgid, egid, trace: c.trace.push(CredEvent::BothGid(rgid, egid)), ..c }
}

/// A system error reported by the credential-mutation oracle, carrying the
/// platform error code (for example "operation not permitted").
#[derive(Clone, Copy, Debug, PartialEq, Eq, Structural)]
pub struct SystemError {
    pub code: i32,
}

/// The credential-mutation oracle: the single, narrow interface through which
/// the process's credential state is read and changed.
///
/// Reads never fail. Each mutation either succeeds, leaving exactly the
/// described state behind and appending one event to the trace, or fails with
/// a [`SystemError`], leaving the state exactly as it was. Whether a mutation
/// succeeds is the oracle's decision (for example, it may refuse for lack of
/// privilege); no implementation is obliged to accept a change.
pub trait CredOracle: Sized {
    /// The current credential state.
    spec fn st(&self) -> CredState;

    /// Reads the real uid.
    fn current_uid(&self) -> (r: u32)
        ensures
            r == self.st().ruid,
    ;

    /// Reads the effective uid.
    fn effective_uid(&self) -> (r: u32)
        ensures
            r == self.st().euid,
    ;

    /// Reads the real gid.
    fn current_gid(&self) -> (r: u32)
        ensures
            r == self.st().rgid,
    ;

    /// Reads the effective gid.
    fn effective_gid(&self) -> (r: u32)
        ensures
            r == self.st().egid,
    ;

    /// Reads the supplementary group list of the process.
    fn group_list(&self) -> (r: Vec<u32>)
        ensures
            r@ == self.st().supp_gids,
    ;

    /// Attempts to set the real uid, leaving every other id unchanged.
    fn set_real_uid(&mut self, uid: u32) -> (r: Result<(), SystemError>)
        ensures
            (match r {
                Ok(_) => final(self).st() == with_real_uid(old(self).st(), uid),
                Err(_) => final(self).st() == old(self).st(),
            }),
    ;

    /// Attempts to set the effective uid, leaving every other id unchanged.
    fn set_eff_uid(&mut self, uid: u32) -> (r: Result<(), SystemError>)
        ensures
            (match r {
                Ok(_) => final(self).st() == with_eff_uid(old(self).st(), uid),
                Err(_) => final(self).st() == old(self).st(),
            }),
    ;

    /// Attempts to set the real and effective uid in one combined change, so
    /// that no state with only one of the pair changed is ever left behind.
    fn set_real_eff_uid(&mut self, ruid: u32, euid: u32) -> (r: Result<(), SystemError>)
        ensures
            (match r {
                Ok(_) => final(self).st() == with_both_uid(old(self).st(), ruid, euid),
                Err(_) => final(self).st() == old(self).st(),
            }),
    ;

    /// Attempts to set the real gid, leaving every other id unchanged.
    fn set_real_gid(&mut self, gid: u32) -> (r: Result<(), SystemError>)
        ensures
            (match r {
                Ok(_) => final(self).st() == with_real_gid(old(self).st(), gid),
                Err(_) => final(self).st() == old(self).st(),
            }),
    ;

    /// Attempts to set the effective gid, leaving every other id unchanged.
    fn set_eff_gid(&mut self, gid: u32) -> (r: Result<(), SystemError>)
        ensures
            (match r {
                Ok(_) => final(self).st() == with_eff_gid(old(self).st(), gid),
                Err(_) => final(self).st() == old(self).st(),
            }),
    ;

    /// Attempts to set the real and effective gid in one combined change, so
    /// that no state with only one of the pair changed is ever left behind.
    fn set_real_eff_gid(&mut self, rgid: u32, egid: u32) -> (r: Result<(), SystemError>)
        ensures
            (match r {
                Ok(_) => final(self).st() == with_both_gid(old(self).st(), rgid, egid),
                Err(_) => final(self).st() == old(self).st(),
            }),
    ;
}

/// Returns the real uid of the process as the oracle reports it.
pub fn get_current_uid<C: CredOracle>(creds: &C) -> (r: u32)
    ensures
        r == creds.st().ruid,
{
    creds.current_uid()
}

/// Returns the effective uid of the process as the oracle reports it.
pub fn get_effective_uid<C: CredOracle>(creds: &C) -> (r: u32)
    ensures
        r == creds.st().euid,
{
    creds.effective_uid()
}

/// Returns the real gid of the process as the oracle reports it.
pub fn get_current_gid<C: CredOracle>(creds: &C) -> (r: u32)
    ensures
        r == creds.st().rgid,
{
    creds.current_gid()
}

/// Returns the effective gid of the process as the oracle reports it.
pub fn get_effective_gid<C: CredOracle>(creds: &C) -> (r: u32)
    ensures
        r == creds.st().egid,
{
    creds.effective_gid()
}

} // verus!

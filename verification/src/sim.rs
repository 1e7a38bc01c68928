//! A simulated credential-mutation oracle: an in-process implementation of
//! [`CredOracle`] holding the four ids, the supplementary group list, and the
//! trace of applied changes. It can be told to refuse uid or gid mutations,
//! which stands for the host refusing a change (for example for lack of
//! privilege), so that callers' failure handling can be exercised.

use vstd::prelude::*;
use crate::creds::{
    CredEvent, CredOracle, CredState, SystemError, with_both_gid, with_both_uid, with_eff_gid,
    with_eff_uid, with_real_gid, with_real_uid,
};

verus! {

/// A simulated process-credential state with a configurable failure switch.
pub struct SimCreds {
    ruid: u32,
    euid: u32,
    rgid: u32,
    egid: u32,
    supp_gids: Vec<u32>,
    refuse_uid: bool,
    refuse_gid: bool,
    refuse_code: i32,
    events: Vec<CredEvent>,
}

impl SimCreds {
    /// Whether uid mutations are currently refused.
    pub closed spec fn refuses_uid(&self) -> bool {
        self.refuse_uid
    }

    /// Whether gid mutations are currently refused.
    pub closed spec fn refuses_gid(&self) -> bool {
        self.refuse_gid
    }

    /// The error code a refused mutation reports.
    pub closed spec fn refusal_code(&self) -> i32 {
        self.refuse_code
    }

    /// Creates a simulated credential state with the given ids, an empty
    /// supplementary group list, an empty trace, and no refusals configured.
    pub fn new(ruid: u32, euid: u32, rgid: u32, egid: u32) -> (r: SimCreds)
        ensures
            r.st() == (CredState {
                ruid,
                euid,
                rgid,
                egid,
                supp_gids: Seq::<u32>::empty(),
                trace: Seq::<CredEvent>::empty(),
            }),
            !r.refuses_uid(),
            !r.refuses_gid(),
    {
        let r = SimCreds {
            ruid,
            euid,
            rgid,
            egid,
            supp_gids: Vec::new(),
            refuse_uid: false,
            refuse_gid: false,
            refuse_code: 0,
            events: Vec::new(),
        };
        proof {
            assert(r.st() =~= CredState {
                ruid,
                euid,
                rgid,
                egid,
                supp_gids: Seq::<u32>::empty(),
                trace: Seq::<CredEvent>::empty(),
            });
        }
        r
    }

    /// Replaces the supplementary group list.
    pub fn set_supp_gids(&mut self, gids: Vec<u32>)
        ensures
            final(self).st() == (CredState { supp_gids: gids@, ..old(self).st() }),
            final(self).refuses_uid() == old(self).refuses_uid(),
            final(self).refuses_gid() == old(self).refuses_gid(),
    {
        self.supp_gids = gids;
        proof {
            assert(self.st() =~= CredState { supp_gids: self.supp_gids@, ..old(self).st() });
        }
    }

    /// From now on, refuse every uid mutation with the given error code.
    pub fn refuse_uid_changes(&mut self, code: i32)
        ensures
            final(self).st() == old(self).st(),
            final(self).refuses_uid(),
            final(self).refuses_gid() == old(self).refuses_gid(),
            final(self).refusal_code() == code,
    {
        self.refuse_uid = true;
        self.refuse_code = code;
    }

    /// From now on, refuse every gid mutation with the given error code.
    pub fn refuse_gid_changes(&mut self, code: i32)
        ensures
            final(self).st() == old(self).st(),
            final(self).refuses_gid(),
            final(self).refuses_uid() == old(self).refuses_uid(),
            final(self).refusal_code() == code,
    {
        self.refuse_gid = true;
        self.refuse_code = code;
    }

    /// Accept every mutation again.
    pub fn accept_changes(&mut self)
        ensures
            final(self).st() == old(self).st(),
            !final(self).refuses_uid(),
            !final(self).refuses_gid(),
    {
        self.refuse_uid = false;
        self.refuse_gid = false;
    }

    /// The trace of successfully applied credential changes, oldest first.
    pub fn events(&self) -> (r: &Vec<CredEvent>)
        ensures
            r@ == self.st().trace,
    {
        &self.events
    }
}

impl CredOracle for SimCreds {
    closed spec fn st(&self) -> CredState {
        CredState {
            ruid: self.ruid,
            euid: self.euid,
            rgid: self.rgid,
            egid: self.egid,
            supp_gids: self.supp_gids@,
            trace: self.events@,
        }
    }

    fn current_uid(&self) -> u32 {
        self.ruid
    }

    fn effective_uid(&self) -> u32 {
        self.euid
    }

    fn current_gid(&self) -> u32 {
        self.rgid
    }

    fn effective_gid(&self) -> u32 {
        self.egid
    }

    fn group_list(&self) -> Vec<u32> {
        let mut r: Vec<u32> = Vec::new();
        let mut k: usize = 0;
        while k < self.supp_gids.len()
            invariant
                k <= self.supp_gids@.len(),
                r@ == self.supp_gids@.subrange(0, k as int),
            decreases self.supp_gids@.len() - k,
        {
            r.push(self.supp_gids[k]);
            assert(self.supp_gids@.subrange(0, k as int + 1) =~= self.supp_gids@.subrange(
                0,
                k as int,
            ).push(self.supp_gids@[k as int]));
            k = k + 1;
        }
        assert(self.supp_gids@.subrange(0, self.supp_gids@.len() as int) =~= self.supp_gids@);
        r
    }

    fn set_real_uid(&mut self, uid: u32) -> Result<(), SystemError> {
        if self.refuse_uid {
            Err(SystemError { code: self.refuse_code })
        } else {
            self.ruid = uid;
            self.events.push(CredEvent::RealUid(uid));
            proof {
                assert(self.st() =~= with_real_uid(old(self).st(), uid));
            }
            Ok(())
        }
    }

    fn set_eff_uid(&mut self, uid: u32) -> Result<(), SystemError> {
        if self.refuse_uid {
            Err(SystemError { code: self.refuse_code })
        } else {
            self.euid = uid;
            self.events.push(CredEvent::EffUid(uid));
            proof {
                assert(self.st() =~= with_eff_uid(old(self).st(), uid));
            }
            Ok(())
        }
    }

    fn set_real_eff_uid(&mut self, ruid: u32, euid: u32) -> Result<(), SystemError> {
        if self.refuse_uid {
            Err(SystemError { code: self.refuse_code })
        } else {
            self.ruid = ruid;
            self.euid = euid;
            self.events.push(CredEvent::BothUid(ruid, euid));
            proof {
                assert(self.st() =~= with_both_uid(old(self).st(), ruid, euid));
            }
            Ok(())
        }
    }

    fn set_real_gid(&mut self, gid: u32) -> Result<(), SystemError> {
        if self.refuse_gid {
            Err(SystemError { code: self.refuse_code })
        } else {
            self.rgid = gid;
            self.events.push(CredEvent::RealGid(gid));
            proof {
                assert(self.st() =~= with_real_gid(old(self).st(), gid));
            }
            Ok(())
        }
    }

    fn set_eff_gid(&mut self, gid: u32) -> Result<(), SystemError> {
        if self.refuse_gid {
            Err(SystemError { code: self.refuse_code })
        } else {
            self.egid = gid;
            self.events.push(CredEvent::EffGid(gid));
            proof {
                assert(self.st() =~= with_eff_gid(old(self).st(), gid));
            }
            Ok(())
        }
    }

    fn set_real_eff_gid(&mut self, rgid: u32, egid: u32) -> Result<(), SystemError> {
        if self.refuse_gid {
            Err(SystemError { code: self.refuse_code })
        } else {
            self.rgid = rgid;
            self.egid = egid;
            self.events.push(CredEvent::BothGid(rgid, egid));
            proof {
                assert(self.st() =~= with_both_gid(old(self).st(), rgid, egid));
            }
            Ok(())
        }
    }
}

} // verus!

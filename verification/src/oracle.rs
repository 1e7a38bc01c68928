//! The identity-database oracle interface and its mathematical model.
//!
//! The oracle answers exactly one record or "not found" for each query, and
//! never surfaces a partial record: a lookup failure is indistinguishable
//! from true absence. Its whole content is modelled as a [`DbView`].

use vstd::prelude::*;
use crate::ident::{null_free, GroupView, User, UserView};

verus! {

/// The mathematical content of the identity database: one mapping per entity
/// kind and key kind (the two sides need not be consulted in lock-step by
/// callers), the supplementary group ids recorded per user name, and the
/// enumeration order of all user records.
#[verifier::ext_equal]
pub ghost struct DbView {
    pub user_id: Map<u32, UserView>,
    pub user_name: Map<Seq<u8>, UserView>,
    pub group_id: Map<u32, GroupView>,
    pub group_name: Map<Seq<u8>, GroupView>,
    pub supp: Map<Seq<u8>, Seq<u32>>,
    pub all: Seq<UserView>,
}

/// The record the database holds for a user id, if any.
pub open spec fn spec_user_by_id(db: DbView, uid: u32) -> Option<UserView> {
    if db.user_id.dom().contains(uid) {
        Some(db.user_id[uid])
    } else {
        None
    }
}

/// The record the database holds for a user name, if any.
pub open spec fn spec_user_by_name(db: DbView, name: Seq<u8>) -> Option<UserView> {
    if db.user_name.dom().contains(name) {
        Some(db.user_name[name])
    } else {
        None
    }
}

/// The record the database holds for a group id, if any.
pub open spec fn spec_group_by_id(db: DbView, gid: u32) -> Option<GroupView> {
    if db.group_id.dom().contains(gid) {
        Some(db.group_id[gid])
    } else {
        None
    }
}

/// The record the database holds for a group name, if any.
pub open spec fn spec_group_by_name(db: DbView, name: Seq<u8>) -> Option<GroupView> {
    if db.group_name.dom().contains(name) {
        Some(db.group_name[name])
    } else {
        None
    }
}

/// The full group membership list for a user name and primary gid: the
/// primary gid first, then the supplementary group ids the database records
/// for that name. "Not found" when the name cannot be resolved to a user at
/// all, which models the account having vanished or the oracle being
/// unreachable.
pub open spec fn spec_supp_groups(db: DbView, name: Seq<u8>, gid: u32) -> Option<Seq<u32>> {
    if db.user_name.dom().contains(name) {
        Some(
            seq![gid] + (if db.supp.dom().contains(name) {
                db.supp[name]
            } else {
                Seq::<u32>::empty()
            }),
        )
    } else {
        None
    }
}

/// Well-formedness of the database content, as the host guarantees it: each
/// mapping is keyed by the record's own field, the id-keyed and name-keyed
/// sides agree on the records they share, every name the database returns is
/// null-free, and every enumerated record is retrievable by id and by name.
pub open spec fn db_coherent(db: DbView) -> bool {
    &&& forall|n: Seq<u8>| #[trigger]
        db.user_name.dom().contains(n) ==> {
            let u = db.user_name[n];
            &&& u.name == n
            &&& null_free(n)
            &&& db.user_id.dom().contains(u.uid)
            &&& db.user_id[u.uid] == u
        }
    &&& forall|i: u32| #[trigger]
        db.user_id.dom().contains(i) ==> {
            let u = db.user_id[i];
            &&& u.uid == i
            &&& db.user_name.dom().contains(u.name)
            &&& db.user_name[u.name] == u
        }
    &&& forall|n: Seq<u8>| #[trigger]
        db.group_name.dom().contains(n) ==> {
            let g = db.group_name[n];
            &&& g.name == n
            &&& null_free(n)
            &&& db.group_id.dom().contains(g.gid)
            &&& db.group_id[g.gid] == g
        }
    &&& forall|i: u32| #[trigger]
        db.group_id.dom().contains(i) ==> {
            let g = db.group_id[i];
            &&& g.gid == i
            &&& db.group_name.dom().contains(g.name)
            &&& db.group_name[g.name] == g
        }
    &&& forall|k: int|
        0 <= k < db.all.len() ==> {
            let u = #[trigger] db.all[k];
            &&& db.user_id.dom().contains(u.uid)
            &&& db.user_id[u.uid] == u
        }
}

/// Round-trip law: in a coherent database, the record found under a name is
/// found again, equal in all fields, under its own uid — and the other way
/// round.
pub proof fn lemma_round_trip(db: DbView, name: Seq<u8>, uid: u32)
    requires
        db_coherent(db),
    ensures
        (match spec_user_by_name(db, name) {
            Some(u) => spec_user_by_id(db, u.uid) == Some(u),
            None => true,
        }),
        (match spec_user_by_id(db, uid) {
            Some(u) => spec_user_by_name(db, u.name) == Some(u),
            None => true,
        }),
{
}

/// Idempotence law: the result of a lookup is a function of the database
/// content and the key alone, and lookups leave the content unchanged — so
/// looking the same key up twice gives equal entities both times.
pub proof fn lemma_lookup_idempotent(db1: DbView, db2: DbView, uid: u32, name: Seq<u8>)
    requires
        db1 == db2,
    ensures
        spec_user_by_id(db1, uid) == spec_user_by_id(db2, uid),
        spec_user_by_name(db1, name) == spec_user_by_name(db2, name),
        spec_group_by_id(db1, uid) == spec_group_by_id(db2, uid),
        spec_group_by_name(db1, name) == spec_group_by_name(db2, name),
{
}

/// The view of an optional user.
pub open spec fn user_opt_view(r: Option<User>) -> Option<UserView> {
    match r {
        Some(u) => Some(u@),
        None => None,
    }
}

/// The view of an optional group.
pub open spec fn group_opt_view(r: Option<crate::ident::Group>) -> Option<GroupView> {
    match r {
        Some(g) => Some(g@),
        None => None,
    }
}

/// The view of an optional gid list.
pub open spec fn gids_opt_view(r: Option<Vec<u32>>) -> Option<Seq<u32>> {
    match r {
        Some(v) => Some(v@),
        None => None,
    }
}

/// The view of an optional byte string.
pub open spec fn bytes_opt_view(r: Option<Vec<u8>>) -> Option<Seq<u8>> {
    match r {
        Some(v) => Some(v@),
        None => None,
    }
}

/// The identity-database oracle: given a numeric id or a null-free name,
/// returns the one record the database holds for it, or "not found"; given a
/// user name and primary gid, the user's full group membership list; and it
/// can enumerate every user record it can stream.
///
/// A query may change the oracle's bookkeeping (a real oracle allocates and
/// releases transient buffers, a counting oracle counts), but never the
/// database content it reports: every method leaves `db()` unchanged.
pub trait IdentityDb: Sized {
    /// The database content the oracle currently reports.
    spec fn db(&self) -> DbView;

    /// Looks a user up by id.
    fn lookup_user_by_id(&mut self, uid: u32) -> (r: Option<User>)
        ensures
            final(self).db() == old(self).db(),
            user_opt_view(r) == spec_user_by_id(old(self).db(), uid),
    ;

    /// Looks a user up by name. The name must be null-free: a name with an
    /// embedded null byte is rejected by the caller before the oracle is
    /// reached.
    fn lookup_user_by_name(&mut self, name: &Vec<u8>) -> (r: Option<User>)
        requires
            null_free(name@),
        ensures
            final(self).db() == old(self).db(),
            user_opt_view(r) == spec_user_by_name(old(self).db(), name@),
    ;

    /// Looks a group up by id.
    fn lookup_group_by_id(&mut self, gid: u32) -> (r: Option<crate::ident::Group>)
        ensures
            final(self).db() == old(self).db(),
            group_opt_view(r) == spec_group_by_id(old(self).db(), gid),
    ;

    /// Looks a group up by name. The name must be null-free.
    fn lookup_group_by_name(&mut self, name: &Vec<u8>) -> (r: Option<crate::ident::Group>)
        requires
            null_free(name@),
        ensures
            final(self).db() == old(self).db(),
            group_opt_view(r) == spec_group_by_name(old(self).db(), name@),
    ;

    /// Returns the full group membership list for a user name and primary
    /// gid, or "not found" when the name cannot be resolved to a user.
    fn supplementary_groups(&mut self, name: &Vec<u8>, gid: u32) -> (r: Option<Vec<u32>>)
        requires
            null_free(name@),
        ensures
            final(self).db() == old(self).db(),
            gids_opt_view(r) == spec_supp_groups(old(self).db(), name@, gid),
    ;

    /// Enumerates every user record the oracle can stream, in the database's
    /// enumeration order.
    fn enumerate_all_users(&mut self) -> (r: Vec<User>)
        ensures
            final(self).db() == old(self).db(),
            r@.map_values(|u: User| u@) == old(self).db().all,
    ;
}

} // verus!

//! The identity cache: a read-through, memoizing layer over the identity
//! database oracle, queried by numeric id and by name for both users and
//! groups.
//!
//! On a hit the cached value is returned at once and the oracle is not
//! consulted at all; on a miss the oracle is asked, and a found record is
//! retrievable through both its id and its name from then on. "Not found"
//! results are never cached, so a later retry reaches the oracle again.

use vstd::prelude::*;
use crate::creds::{CredOracle, SystemError};
use crate::ident::{clone_bytes, has_null_byte, bytes_eq, null_free, Group, GroupView, User, UserView};
use crate::oracle::{
    bytes_opt_view, db_coherent, group_opt_view, spec_group_by_id, spec_group_by_name,
    spec_supp_groups, spec_user_by_id, spec_user_by_name, user_opt_view, DbView, IdentityDb,
};

verus! {

/// Finds the first cached user with the given uid.
pub(crate) fn find_user_uid(v: &Vec<User>, uid: u32) -> (r: Option<usize>)
    ensures
        (match r {
            Some(k) => k < v@.len() && v@[k as int]@.uid == uid && forall|i: int|
                0 <= i < k ==> (#[trigger] v@[i])@.uid != uid,
            None => forall|i: int| 0 <= i < v@.len() ==> (#[trigger] v@[i])@.uid != uid,
        }),
{
    let mut k: usize = 0;
    while k < v.len()
        invariant
            k <= v@.len(),
            forall|i: int| 0 <= i < k ==> (#[trigger] v@[i])@.uid != uid,
        decreases v@.len() - k,
    {
        let u = &v[k];
        if u.uid() == uid {
            return Some(k);
        }
        k = k + 1;
    }
    None
}

/// Finds the first cached user with the given name.
pub(crate) fn find_user_name(v: &Vec<User>, name: &Vec<u8>) -> (r: Option<usize>)
    ensures
        (match r {
            Some(k) => k < v@.len() && v@[k as int]@.name == name@ && forall|i: int|
                0 <= i < k ==> (#[trigger] v@[i])@.name != name@,
            None => forall|i: int| 0 <= i < v@.len() ==> (#[trigger] v@[i])@.name != name@,
        }),
{
    let mut k: usize = 0;
    while k < v.len()
        invariant
            k <= v@.len(),
            forall|i: int| 0 <= i < k ==> (#[trigger] v@[i])@.name != name@,
        decreases v@.len() - k,
    {
        let u = &v[k];
        if bytes_eq(u.name(), name) {
            return Some(k);
        }
        k = k + 1;
    }
    None
}

/// Finds the first cached group with the given gid.
pub(crate) fn find_group_gid(v: &Vec<Group>, gid: u32) -> (r: Option<usize>)
    ensures
        (match r {
            Some(k) => k < v@.len() && v@[k as int]@.gid == gid && forall|i: int|
                0 <= i < k ==> (#[trigger] v@[i])@.gid != gid,
            None => forall|i: int| 0 <= i < v@.len() ==> (#[trigger] v@[i])@.gid != gid,
        }),
{
    let mut k: usize = 0;
    while k < v.len()
        invariant
            k <= v@.len(),
            forall|i: int| 0 <= i < k ==> (#[trigger] v@[i])@.gid != gid,
        decreases v@.len() - k,
    {
        let g = &v[k];
        if g.gid() == gid {
            return Some(k);
        }
        k = k + 1;
    }
    None
}

/// Finds the first cached group with the given name.
pub(crate) fn find_group_name(v: &Vec<Group>, name: &Vec<u8>) -> (r: Option<usize>)
    ensures
        (match r {
            Some(k) => k < v@.len() && v@[k as int]@.name == name@ && forall|i: int|
                0 <= i < k ==> (#[trigger] v@[i])@.name != name@,
            None => forall|i: int| 0 <= i < v@.len() ==> (#[trigger] v@[i])@.name != name@,
        }),
{
    let mut k: usize = 0;
    while k < v.len()
        invariant
            k <= v@.len(),
            forall|i: int| 0 <= i < k ==> (#[trigger] v@[i])@.name != name@,
        decreases v@.len() - k,
    {
        let g = &v[k];
        if bytes_eq(g.name(), name) {
            return Some(k);
        }
        k = k + 1;
    }
    None
}

/// The read-through identity cache. It owns the oracle it populates from;
/// one store per entity kind serves both the id-keyed and the name-keyed
/// lookups, so a record fetched through either key is afterwards found under
/// both.
pub struct Cache<O> {
    oracle: O,
    users: Vec<User>,
    groups: Vec<Group>,
}

impl<O: IdentityDb> Cache<O> {
    /// The database content the cache's oracle reports.
    pub closed spec fn db(&self) -> DbView {
        self.oracle.db()
    }

    /// The oracle in its current state.
    pub closed spec fn oracle_state(&self) -> O {
        self.oracle
    }

    /// The views of the cached user records, in insertion order.
    pub closed spec fn cached_users(&self) -> Seq<UserView> {
        self.users@.map_values(|u: User| u@)
    }

    /// The views of the cached group records, in insertion order.
    pub closed spec fn cached_groups(&self) -> Seq<GroupView> {
        self.groups@.map_values(|g: Group| g@)
    }

    /// Well-formedness: the database is coherent and every cached record is
    /// exactly the record the database holds under its id (and so, by
    /// coherence, under its name).
    pub closed spec fn wf(&self) -> bool {
        &&& db_coherent(self.oracle.db())
        &&& forall|k: int|
            0 <= k < self.users@.len() ==> {
                let u = (#[trigger] self.users@[k])@;
                &&& self.oracle.db().user_id.dom().contains(u.uid)
                &&& self.oracle.db().user_id[u.uid] == u
            }
        &&& forall|k: int|
            0 <= k < self.groups@.len() ==> {
                let g = (#[trigger] self.groups@[k])@;
                &&& self.oracle.db().group_id.dom().contains(g.gid)
                &&& self.oracle.db().group_id[g.gid] == g
            }
    }

    /// Whether a user with this uid is cached.
    pub closed spec fn has_user_id(&self, uid: u32) -> bool {
        exists|k: int| 0 <= k < self.users@.len() && (#[trigger] self.users@[k])@.uid == uid
    }

    /// Whether a user with this name is cached.
    pub closed spec fn has_user_name(&self, name: Seq<u8>) -> bool {
        exists|k: int| 0 <= k < self.users@.len() && (#[trigger] self.users@[k])@.name == name
    }

    /// Whether a group with this gid is cached.
    pub closed spec fn has_group_id(&self, gid: u32) -> bool {
        exists|k: int| 0 <= k < self.groups@.len() && (#[trigger] self.groups@[k])@.gid == gid
    }

    /// Whether a group with this name is cached.
    pub closed spec fn has_group_name(&self, name: Seq<u8>) -> bool {
        exists|k: int| 0 <= k < self.groups@.len() && (#[trigger] self.groups@[k])@.name == name
    }

    /// Creates an empty cache over the given oracle.
    pub fn new(oracle: O) -> (r: Self)
        ensures
            r.db() == oracle.db(),
            r.oracle_state() == oracle,
            r.cached_users() == Seq::<UserView>::empty(),
            r.cached_groups() == Seq::<GroupView>::empty(),
            db_coherent(oracle.db()) ==> r.wf(),
    {
        let r = Cache { oracle, users: Vec::new(), groups: Vec::new() };
        proof {
            assert(r.cached_users() =~= Seq::<UserView>::empty());
            assert(r.cached_groups() =~= Seq::<GroupView>::empty());
        }
        r
    }

    /// The oracle, readable in place.
    pub fn oracle(&self) -> (r: &O)
        ensures
            *r == self.oracle_state(),
    {
        &self.oracle
    }
}

/// After pushing one user record that the database holds under its id, the
/// cache is still well-formed, everything cached before stays cached, and the
/// new record is cached under both keys.
proof fn lemma_cache_push_user<O: IdentityDb>(c1: Cache<O>, c2: Cache<O>, x: User)
    requires
        c1.wf(),
        c2.oracle_state() == c1.oracle_state(),
        c2.groups@ == c1.groups@,
        c2.users@ == c1.users@.push(x),
        c1.db().user_id.dom().contains(x@.uid),
        c1.db().user_id[x@.uid] == x@,
    ensures
        c2.wf(),
        forall|uid: u32| #[trigger] c1.has_user_id(uid) ==> c2.has_user_id(uid),
        forall|n: Seq<u8>| #[trigger] c1.has_user_name(n) ==> c2.has_user_name(n),
        forall|gid: u32| c2.has_group_id(gid) == c1.has_group_id(gid),
        forall|n: Seq<u8>| c2.has_group_name(n) == c1.has_group_name(n),
        c2.has_user_id(x@.uid),
        c2.has_user_name(x@.name),
        c2.cached_groups() == c1.cached_groups(),
        c2.cached_users() == c1.cached_users().push(x@),
{
    let n1 = c1.users@.len() as int;
    assert(c2.users@[n1] == x);
    assert(forall|i: int| 0 <= i < n1 ==> c2.users@[i] == c1.users@[i]);
    assert forall|uid: u32| #[trigger] c1.has_user_id(uid) implies c2.has_user_id(uid) by {
        let kw = choose|kw: int|
            0 <= kw < c1.users@.len() && (#[trigger] c1.users@[kw])@.uid == uid;
        assert((c2.users@[kw])@.uid == uid);
    };
    assert forall|nm: Seq<u8>| #[trigger] c1.has_user_name(nm) implies c2.has_user_name(nm) by {
        let kw = choose|kw: int|
            0 <= kw < c1.users@.len() && (#[trigger] c1.users@[kw])@.name == nm;
        assert((c2.users@[kw])@.name == nm);
    };
    assert((c2.users@[n1])@.uid == x@.uid);
    assert((c2.users@[n1])@.name == x@.name);
    assert(c2.cached_users() =~= c1.cached_users().push(x@));
}

/// The group counterpart of [`lemma_cache_push_user`].
proof fn lemma_cache_push_group<O: IdentityDb>(c1: Cache<O>, c2: Cache<O>, x: Group)
    requires
        c1.wf(),
        c2.oracle_state() == c1.oracle_state(),
        c2.users@ == c1.users@,
        c2.groups@ == c1.groups@.push(x),
        c1.db().group_id.dom().contains(x@.gid),
        c1.db().group_id[x@.gid] == x@,
    ensures
        c2.wf(),
        forall|gid: u32| #[trigger] c1.has_group_id(gid) ==> c2.has_group_id(gid),
        forall|n: Seq<u8>| #[trigger] c1.has_group_name(n) ==> c2.has_group_name(n),
        forall|uid: u32| c2.has_user_id(uid) == c1.has_user_id(uid),
        forall|n: Seq<u8>| c2.has_user_name(n) == c1.has_user_name(n),
        c2.has_group_id(x@.gid),
        c2.has_group_name(x@.name),
        c2.cached_users() == c1.cached_users(),
        c2.cached_groups() == c1.cached_groups().push(x@),
{
    let n1 = c1.groups@.len() as int;
    assert(c2.groups@[n1] == x);
    assert(forall|i: int| 0 <= i < n1 ==> c2.groups@[i] == c1.groups@[i]);
    assert forall|gid: u32| #[trigger] c1.has_group_id(gid) implies c2.has_group_id(gid) by {
        let kw = choose|kw: int|
            0 <= kw < c1.groups@.len() && (#[trigger] c1.groups@[kw])@.gid == gid;
        assert((c2.groups@[kw])@.gid == gid);
    };
    assert forall|nm: Seq<u8>| #[trigger] c1.has_group_name(nm) implies c2.has_group_name(nm) by {
        let kw = choose|kw: int|
            0 <= kw < c1.groups@.len() && (#[trigger] c1.groups@[kw])@.name == nm;
        assert((c2.groups@[kw])@.name == nm);
    };
    assert((c2.groups@[n1])@.gid == x@.gid);
    assert((c2.groups@[n1])@.name == x@.name);
    assert(c2.cached_groups() =~= c1.cached_groups().push(x@));
}

/// Looks a user up by uid through the cache: the cached record on a hit (the
/// oracle is not consulted at all), the database's record on a miss. A found
/// record is afterwards cached under both its uid and its name; "not found"
/// leaves the cache untouched.
pub fn get_user_by_uid<O: IdentityDb>(cache: &mut Cache<O>, uid: u32) -> (r: Option<User>)
    requires
        old(cache).wf(),
    ensures
        final(cache).wf(),
        final(cache).db() == old(cache).db(),
        user_opt_view(r) == spec_user_by_id(old(cache).db(), uid),
        old(cache).has_user_id(uid) ==> final(cache).oracle_state() == old(cache).oracle_state(),
        final(cache).cached_groups() == old(cache).cached_groups(),
        (match r {
            Some(u) => final(cache).has_user_id(uid) && final(cache).has_user_name(u@.name),
            None => final(cache).cached_users() == old(cache).cached_users(),
        }),
{
    match find_user_uid(&cache.users, uid) {
        Some(k) => {
            let u = &cache.users[k];
            Some(u.clone())
        },
        None => {
            match cache.oracle.lookup_user_by_id(uid) {
                None => None,
                Some(u) => {
                    let ghost pre = *cache;
                    let u2 = u.clone();
                    let ghost pushed = u2;
                    cache.users.push(u2);
                    proof {
                        lemma_cache_push_user(pre, *cache, pushed);
                    }
                    Some(u)
                },
            }
        },
    }
}

/// Looks a user up by name through the cache. A name holding a null byte
/// cannot belong to any account: the lookup reports "not found" without
/// consulting the oracle and without any error.
pub fn get_user_by_name<O: IdentityDb>(cache: &mut Cache<O>, name: &Vec<u8>) -> (r: Option<User>)
    requires
        old(cache).wf(),
    ensures
        final(cache).wf(),
        final(cache).db() == old(cache).db(),
        user_opt_view(r) == spec_user_by_name(old(cache).db(), name@),
        !null_free(name@) ==> r is None && *final(cache) == *old(cache),
        old(cache).has_user_name(name@) ==> final(cache).oracle_state() == old(
            cache,
        ).oracle_state(),
        final(cache).cached_groups() == old(cache).cached_groups(),
        (match r {
            Some(u) => final(cache).has_user_id(u@.uid) && final(cache).has_user_name(name@),
            None => final(cache).cached_users() == old(cache).cached_users(),
        }),
{
    if has_null_byte(name) {
        proof {
            if old(cache).db().user_name.dom().contains(name@) {
                assert(null_free(name@));
            }
            if old(cache).has_user_name(name@) {
                let kw = choose|kw: int|
                    0 <= kw < cache.users@.len() && (#[trigger] cache.users@[kw])@.name == name@;
                let u = cache.users@[kw]@;
                assert(cache.db().user_id.dom().contains(u.uid));
                assert(cache.db().user_name.dom().contains(u.name));
            }
        }
        return None;
    }
    match find_user_name(&cache.users, name) {
        Some(k) => {
            let u = &cache.users[k];
            proof {
                let uv = cache.users@[k as int]@;
                assert(cache.db().user_id.dom().contains(uv.uid));
                assert(cache.db().user_name.dom().contains(uv.name));
                assert(cache.db().user_name[name@] == uv);
            }
            Some(u.clone())
        },
        None => {
            match cache.oracle.lookup_user_by_name(name) {
                None => None,
                Some(u) => {
                    let ghost pre = *cache;
                    proof {
                        assert(pre.db().user_name.dom().contains(name@));
                        assert(pre.db().user_id.dom().contains(u@.uid));
                    }
                    let u2 = u.clone();
                    let ghost pushed = u2;
                    cache.users.push(u2);
                    proof {
                        lemma_cache_push_user(pre, *cache, pushed);
                    }
                    Some(u)
                },
            }
        },
    }
}

/// Looks a group up by gid through the cache, as [`get_user_by_uid`] does
/// for users.
pub fn get_group_by_gid<O: IdentityDb>(cache: &mut Cache<O>, gid: u32) -> (r: Option<Group>)
    requires
        old(cache).wf(),
    ensures
        final(cache).wf(),
        final(cache).db() == old(cache).db(),
        group_opt_view(r) == spec_group_by_id(old(cache).db(), gid),
        old(cache).has_group_id(gid) ==> final(cache).oracle_state() == old(cache).oracle_state(),
        final(cache).cached_users() == old(cache).cached_users(),
        (match r {
            Some(g) => final(cache).has_group_id(gid) && final(cache).has_group_name(g@.name),
            None => final(cache).cached_groups() == old(cache).cached_groups(),
        }),
{
    match find_group_gid(&cache.groups, gid) {
        Some(k) => {
            let g = &cache.groups[k];
            Some(g.clone())
        },
        None => {
            match cache.oracle.lookup_group_by_id(gid) {
                None => None,
                Some(g) => {
                    let ghost pre = *cache;
                    let g2 = g.clone();
                    let ghost pushed = g2;
                    cache.groups.push(g2);
                    proof {
                        lemma_cache_push_group(pre, *cache, pushed);
                    }
                    Some(g)
                },
            }
        },
    }
}

/// Looks a group up by name through the cache, as [`get_user_by_name`] does
/// for users; a name holding a null byte reports "not found" at once.
pub fn get_group_by_name<O: IdentityDb>(cache: &mut Cache<O>, name: &Vec<u8>) -> (r: Option<Group>)
    requires
        old(cache).wf(),
    ensures
        final(cache).wf(),
        final(cache).db() == old(cache).db(),
        group_opt_view(r) == spec_group_by_name(old(cache).db(), name@),
        !null_free(name@) ==> r is None && *final(cache) == *old(cache),
        old(cache).has_group_name(name@) ==> final(cache).oracle_state() == old(
            cache,
        ).oracle_state(),
        final(cache).cached_users() == old(cache).cached_users(),
        (match r {
            Some(g) => final(cache).has_group_id(g@.gid) && final(cache).has_group_name(name@),
            None => final(cache).cached_groups() == old(cache).cached_groups(),
        }),
{
    if has_null_byte(name) {
        proof {
            if old(cache).db().group_name.dom().contains(name@) {
                assert(null_free(name@));
            }
            if old(cache).has_group_name(name@) {
                let kw = choose|kw: int|
                    0 <= kw < cache.groups@.len() && (#[trigger] cache.groups@[kw])@.name == name@;
                let g = cache.groups@[kw]@;
                assert(cache.db().group_id.dom().contains(g.gid));
                assert(cache.db().group_name.dom().contains(g.name));
            }
        }
        return None;
    }
    match find_group_name(&cache.groups, name) {
        Some(k) => {
            let g = &cache.groups[k];
            proof {
                let gv = cache.groups@[k as int]@;
                assert(cache.db().group_id.dom().contains(gv.gid));
                assert(cache.db().group_name.dom().contains(gv.name));
                assert(cache.db().group_name[name@] == gv);
            }
            Some(g.clone())
        },
        None => {
            match cache.oracle.lookup_group_by_name(name) {
                None => None,
                Some(g) => {
                    let ghost pre = *cache;
                    proof {
                        assert(pre.db().group_name.dom().contains(name@));
                        assert(pre.db().group_id.dom().contains(g@.gid));
                    }
                    let g2 = g.clone();
                    let ghost pushed = g2;
                    cache.groups.push(g2);
                    proof {
                        lemma_cache_push_group(pre, *cache, pushed);
                    }
                    Some(g)
                },
            }
        },
    }
}

/// The name of the user the database holds for this uid, if any.
pub open spec fn spec_username_of(db: DbView, uid: u32) -> Option<Seq<u8>> {
    match spec_user_by_id(db, uid) {
        Some(u) => Some(u.name),
        None => None,
    }
}

/// The name of the group the database holds for this gid, if any.
pub open spec fn spec_groupname_of(db: DbView, gid: u32) -> Option<Seq<u8>> {
    match spec_group_by_id(db, gid) {
        Some(g) => Some(g.name),
        None => None,
    }
}

/// Returns the name of the user whose uid is the process's real uid, or "not
/// found" if the database has no record for it (a legitimate possibility, for
/// example an account deleted after login).
pub fn get_current_username<O: IdentityDb, C: CredOracle>(cache: &mut Cache<O>, creds: &C) -> (r:
    Option<Vec<u8>>)
    requires
        old(cache).wf(),
    ensures
        final(cache).wf(),
        final(cache).db() == old(cache).db(),
        bytes_opt_view(r) == spec_username_of(old(cache).db(), creds.st().ruid),
{
    let uid = creds.current_uid();
    match get_user_by_uid(cache, uid) {
        Some(u) => Some(clone_bytes(u.name())),
        None => None,
    }
}

/// Returns the name of the user whose uid is the process's effective uid, or
/// "not found" if the database has no record for it.
pub fn get_effective_username<O: IdentityDb, C: CredOracle>(cache: &mut Cache<O>, creds: &C) -> (r:
    Option<Vec<u8>>)
    requires
        old(cache).wf(),
    ensures
        final(cache).wf(),
        final(cache).db() == old(cache).db(),
        bytes_opt_view(r) == spec_username_of(old(cache).db(), creds.st().euid),
{
    let uid = creds.effective_uid();
    match get_user_by_uid(cache, uid) {
        Some(u) => Some(clone_bytes(u.name())),
        None => None,
    }
}

/// Returns the name of the group whose gid is the process's real gid, or
/// "not found" if the database has no record for it.
pub fn get_current_groupname<O: IdentityDb, C: CredOracle>(cache: &mut Cache<O>, creds: &C) -> (r:
    Option<Vec<u8>>)
    requires
        old(cache).wf(),
    ensures
        final(cache).wf(),
        final(cache).db() == old(cache).db(),
        bytes_opt_view(r) == spec_groupname_of(old(cache).db(), creds.st().rgid),
{
    let gid = creds.current_gid();
    match get_group_by_gid(cache, gid) {
        Some(g) => Some(clone_bytes(g.name())),
        None => None,
    }
}

/// Returns the name of the group whose gid is the process's effective gid,
/// or "not found" if the database has no record for it.
pub fn get_effective_groupname<O: IdentityDb, C: CredOracle>(cache: &mut Cache<O>, creds: &C) -> (r:
    Option<Vec<u8>>)
    requires
        old(cache).wf(),
    ensures
        final(cache).wf(),
        final(cache).db() == old(cache).db(),
        bytes_opt_view(r) == spec_groupname_of(old(cache).db(), creds.st().egid),
{
    let gid = creds.effective_gid();
    match get_group_by_gid(cache, gid) {
        Some(g) => Some(clone_bytes(g.name())),
        None => None,
    }
}


/// The group records a coherent database resolves for a gid list, in order,
/// skipping ids it has no record for.
pub open spec fn resolve_gids(db: DbView, gids: Seq<u32>) -> Seq<GroupView>
    decreases gids.len(),
{
    if gids.len() == 0 {
        Seq::<GroupView>::empty()
    } else {
        let init = resolve_gids(db, gids.drop_last());
        match spec_group_by_id(db, gids.last()) {
            Some(g) => init.push(g),
            None => init,
        }
    }
}

/// The gid list with repetitions removed: first occurrences kept, in order.
pub open spec fn dedup_gids(gids: Seq<u32>) -> Seq<u32>
    decreases gids.len(),
{
    if gids.len() == 0 {
        Seq::<u32>::empty()
    } else {
        let init = dedup_gids(gids.drop_last());
        if init.contains(gids.last()) {
            init
        } else {
            init.push(gids.last())
        }
    }
}

/// Reports whether a gid list holds the given gid.
fn contains_gid(v: &Vec<u32>, gid: u32) -> (r: bool)
    ensures
        r == v@.contains(gid),
{
    let mut k: usize = 0;
    while k < v.len()
        invariant
            k <= v@.len(),
            forall|i: int| 0 <= i < k ==> v@[i] != gid,
        decreases v@.len() - k,
    {
        if v[k] == gid {
            assert(v@[k as int] == gid);
            return true;
        }
        k = k + 1;
    }
    assert(!v@.contains(gid));
    false
}

/// Removes repeated gids from a list, keeping first occurrences in order.
fn dedup_gid_list(v: &Vec<u32>) -> (r: Vec<u32>)
    ensures
        r@ == dedup_gids(v@),
{
    let mut out: Vec<u32> = Vec::new();
    let mut k: usize = 0;
    while k < v.len()
        invariant
            k <= v@.len(),
            out@ == dedup_gids(v@.subrange(0, k as int)),
        decreases v@.len() - k,
    {
        let g = v[k];
        proof {
            let pre = v@.subrange(0, k as int);
            let cur = v@.subrange(0, k as int + 1);
            assert(cur.drop_last() =~= pre);
            assert(cur.last() == v@[k as int]);
        }
        if !contains_gid(&out, g) {
            out.push(g);
        }
        k = k + 1;
    }
    assert(v@.subrange(0, v@.len() as int) =~= v@);
    out
}

/// Resolves a gid list to group records through the cache, in order,
/// skipping gids the database has no record for.
fn resolve_gid_list<O: IdentityDb>(cache: &mut Cache<O>, gids: &Vec<u32>) -> (r: Vec<Group>)
    requires
        old(cache).wf(),
    ensures
        final(cache).wf(),
        final(cache).db() == old(cache).db(),
        r@.map_values(|g: Group| g@) == resolve_gids(old(cache).db(), gids@),
{
    let mut out: Vec<Group> = Vec::new();
    let mut k: usize = 0;
    proof {
        assert(out@.map_values(|g: Group| g@) =~= resolve_gids(
            old(cache).db(),
            gids@.subrange(0, 0),
        ));
    }
    while k < gids.len()
        invariant
            cache.wf(),
            cache.db() == old(cache).db(),
            k <= gids@.len(),
            out@.map_values(|g: Group| g@) == resolve_gids(
                old(cache).db(),
                gids@.subrange(0, k as int),
            ),
        decreases gids@.len() - k,
    {
        let gid = gids[k];
        proof {
            let pre = gids@.subrange(0, k as int);
            let cur = gids@.subrange(0, k as int + 1);
            assert(cur.drop_last() =~= pre);
            assert(cur.last() == gids@[k as int]);
        }
        let ghost out_pre = out@;
        match get_group_by_gid(cache, gid) {
            Some(g) => {
                let ghost gv = g@;
                out.push(g);
                proof {
                    assert(out@.map_values(|g: Group| g@) =~= out_pre.map_values(
                        |g: Group| g@,
                    ).push(gv));
                }
            },
            None => {},
        }
        k = k + 1;
    }
    proof {
        assert(gids@.subrange(0, gids@.len() as int) =~= gids@);
    }
    out
}

/// Returns the groups of the process's supplementary group list, resolved
/// through the cache in order with repeated gids dropped. A gid the database
/// has no record for is skipped rather than reported: at this layer "no such
/// group" is not distinguishable from "no record available", so the call
/// succeeds with what could be resolved.
pub fn group_access_list<O: IdentityDb, C: CredOracle>(cache: &mut Cache<O>, creds: &C) -> (r:
    Result<Vec<Group>, SystemError>)
    requires
        old(cache).wf(),
    ensures
        final(cache).wf(),
        final(cache).db() == old(cache).db(),
        (match r {
            Ok(gs) => gs@.map_values(|g: Group| g@) == resolve_gids(
                old(cache).db(),
                dedup_gids(creds.st().supp_gids),
            ),
            Err(_) => false,
        }),
{
    let gl = creds.group_list();
    let ded = dedup_gid_list(&gl);
    let out = resolve_gid_list(cache, &ded);
    Ok(out)
}

/// The resolved group membership for a username and primary gid: "not found"
/// when the database cannot resolve the name to a user at all; otherwise the
/// membership gid list resolved to group records, skipping gids without a
/// record.
pub open spec fn spec_user_groups(db: DbView, name: Seq<u8>, gid: u32) -> Option<Seq<GroupView>> {
    match spec_supp_groups(db, name, gid) {
        Some(gl) => Some(resolve_gids(db, gl)),
        None => None,
    }
}

/// The view of an optional group list.
pub open spec fn groups_opt_view(r: Option<Vec<Group>>) -> Option<Seq<GroupView>> {
    match r {
        Some(v) => Some(v@.map_values(|g: Group| g@)),
        None => None,
    }
}

/// Returns the full group membership list for a username and primary gid:
/// the primary group first, then the supplementary groups the database
/// records for that name, each resolved to a group record. "Not found" when
/// the name cannot be resolved to a user (the account vanished or the oracle
/// is unreachable) — a soft failure, never an error. A name holding a null
/// byte cannot belong to any account and reports "not found" without
/// consulting the oracle.
pub fn get_user_groups<O: IdentityDb>(cache: &mut Cache<O>, username: &Vec<u8>, gid: u32) -> (r:
    Option<Vec<Group>>)
    requires
        old(cache).wf(),
    ensures
        final(cache).wf(),
        final(cache).db() == old(cache).db(),
        groups_opt_view(r) == spec_user_groups(old(cache).db(), username@, gid),
        !null_free(username@) ==> r is None && *final(cache) == *old(cache),
{
    if has_null_byte(username) {
        proof {
            if old(cache).db().user_name.dom().contains(username@) {
                assert(null_free(username@));
            }
        }
        return None;
    }
    match cache.oracle.supplementary_groups(username, gid) {
        None => None,
        Some(gl) => {
            let out = resolve_gid_list(cache, &gl);
            Some(out)
        },
    }
}

impl User {
    /// Returns the groups this user is a member of, re-resolving the user's
    /// name and primary group id through the database. "Not found" when the
    /// name can no longer be resolved — the account vanished or the oracle is
    /// unreachable — a soft failure, never an error.
    pub fn groups<O: IdentityDb>(&self, cache: &mut Cache<O>) -> (r: Option<Vec<Group>>)
        requires
            old(cache).wf(),
        ensures
            final(cache).wf(),
            final(cache).db() == old(cache).db(),
            groups_opt_view(r) == spec_user_groups(
                old(cache).db(),
                self@.name,
                self@.primary_group,
            ),
    {
        let name = clone_bytes(self.name());
        let gid = self.primary_group_id();
        get_user_groups(cache, &name, gid)
    }
}

/// Enumerates every user record the database can stream, in its enumeration
/// order, inserting each record into the cache along the way: even a prefix
/// of the enumeration leaves those records cached, and afterwards every
/// enumerated record is retrievable from the cache under both keys without a
/// further database query.
pub fn all_users<O: IdentityDb>(cache: &mut Cache<O>) -> (r: Vec<User>)
    requires
        old(cache).wf(),
    ensures
        final(cache).wf(),
        final(cache).db() == old(cache).db(),
        r@.map_values(|u: User| u@) == old(cache).db().all,
        forall|k: int|
            0 <= k < r@.len() ==> final(cache).has_user_id((#[trigger] r@[k])@.uid)
                && final(cache).has_user_name(r@[k]@.name),
{
    let us = cache.oracle.enumerate_all_users();
    let mut k: usize = 0;
    while k < us.len()
        invariant
            cache.wf(),
            cache.db() == old(cache).db(),
            us@.map_values(|u: User| u@) == old(cache).db().all,
            k <= us@.len(),
            forall|i: int|
                0 <= i < k ==> cache.has_user_id((#[trigger] us@[i])@.uid) && cache.has_user_name(
                    us@[i]@.name,
                ),
        decreases us@.len() - k,
    {
        let uref = &us[k];
        let u2 = uref.clone();
        let ghost pushed = u2;
        let ghost pre = *cache;
        proof {
            assert(old(cache).db().all[k as int] == us@.map_values(|u: User| u@)[k as int]);
            assert(pushed@ == old(cache).db().all[k as int]);
        }
        cache.users.push(u2);
        proof {
            lemma_cache_push_user(pre, *cache, pushed);
            assert forall|i: int|
                0 <= i < k + 1 implies cache.has_user_id((#[trigger] us@[i])@.uid)
                && cache.has_user_name(us@[i]@.name) by {
                if i < k {
                    assert(pre.has_user_id(us@[i]@.uid));
                    assert(pre.has_user_name(us@[i]@.name));
                }
            };
        }
        k = k + 1;
    }
    us
}


} // verus!

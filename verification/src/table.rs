//! A seeded, in-process identity-database oracle.
//!
//! `TableOracle` implements [`IdentityDb`] from explicit record tables, and
//! counts the queries made of it, so that callers' caching behaviour is
//! observable. An empty table is the degenerate "no identity database"
//! mode, in which every lookup reports "not found" and the enumeration is
//! empty; a seeded table is the oracle tests run the cache against.

use vstd::prelude::*;
use vstd::map::*;
use crate::cache::{find_group_gid, find_group_name, find_user_name, find_user_uid};
use crate::ident::{bytes_eq, has_null_byte, null_free, Group, GroupView, User, UserView};
use crate::oracle::{
    db_coherent, spec_user_by_id, spec_user_by_name, spec_group_by_id, spec_group_by_name, DbView,
    IdentityDb,
};

verus! {

/// The first element of a sequence satisfying a predicate, scanning from the
/// front, if any.
pub open spec fn find_first<T>(s: Seq<T>, p: spec_fn(T) -> bool) -> Option<T>
    decreases s.len(),
{
    if s.len() == 0 {
        None
    } else if p(s[0]) {
        Some(s[0])
    } else {
        find_first(s.drop_first(), p)
    }
}

/// If no element satisfies the predicate, nothing is found.
pub proof fn lemma_find_first_none<T>(s: Seq<T>, p: spec_fn(T) -> bool)
    requires
        forall|i: int| 0 <= i < s.len() ==> !p(#[trigger] s[i]),
    ensures
        find_first(s, p) is None,
    decreases s.len(),
{
    if s.len() > 0 {
        assert forall|i: int| 0 <= i < s.drop_first().len() implies !p(
            #[trigger] s.drop_first()[i],
        ) by {
            assert(s.drop_first()[i] == s[i + 1]);
        };
        lemma_find_first_none(s.drop_first(), p);
    }
}

/// The first match is found: if the element at `k` satisfies the predicate
/// and no earlier one does, the scan finds exactly that element.
pub proof fn lemma_find_first_at<T>(s: Seq<T>, p: spec_fn(T) -> bool, k: int)
    requires
        0 <= k < s.len(),
        p(s[k]),
        forall|i: int| 0 <= i < k ==> !p(#[trigger] s[i]),
    ensures
        find_first(s, p) == Some(s[k]),
    decreases s.len(),
{
    if k > 0 {
        assert(!p(s[0]));
        assert(s.drop_first()[k - 1] == s[k]);
        assert forall|i: int| 0 <= i < k - 1 implies !p(#[trigger] s.drop_first()[i]) by {
            assert(s.drop_first()[i] == s[i + 1]);
        };
        lemma_find_first_at(s.drop_first(), p, k - 1);
    }
}

/// Whatever is found is an element of the sequence, satisfies the predicate,
/// and has no earlier match.
pub proof fn lemma_find_first_some<T>(s: Seq<T>, p: spec_fn(T) -> bool)
    requires
        find_first(s, p) is Some,
    ensures
        exists|k: int|
            0 <= k < s.len() && p(#[trigger] s[k]) && find_first(s, p) == Some(s[k]) && (forall|
                i: int,
            | 0 <= i < k ==> !p(s[i])),
    decreases s.len(),
{
    if s.len() == 0 {
    } else if p(s[0]) {
        assert(0 <= 0 < s.len() && p(s[0]) && find_first(s, p) == Some(s[0]) && (forall|i: int|
            0 <= i < 0 ==> !p(s[i])));
    } else {
        lemma_find_first_some(s.drop_first(), p);
        let k = choose|k: int|
            0 <= k < s.drop_first().len() && p(#[trigger] s.drop_first()[k]) && find_first(
                s.drop_first(),
                p,
            ) == Some(s.drop_first()[k]) && (forall|i: int| 0 <= i < k ==> !p(s.drop_first()[i]));
        assert(s.drop_first()[k] == s[k + 1]);
        assert forall|i: int| 0 <= i < k + 1 implies !p(s[i]) by {
            if i > 0 {
                assert(s.drop_first()[i - 1] == s[i]);
            }
        };
        assert(0 <= k + 1 < s.len() && p(s[k + 1]) && find_first(s, p) == Some(s[k + 1]) && (
        forall|i: int| 0 <= i < k + 1 ==> !p(s[i])));
    }
}

/// Scanning a sequence extended by one element finds what the original scan
/// found, or else the new element if it matches.
pub proof fn lemma_find_first_push<T>(s: Seq<T>, p: spec_fn(T) -> bool, x: T)
    ensures
        find_first(s.push(x), p) == (match find_first(s, p) {
            Some(u) => Some(u),
            None => if p(x) {
                Some(x)
            } else {
                None
            },
        }),
    decreases s.len(),
{
    if s.len() == 0 {
        assert(s.push(x)[0] == x);
        assert(s.push(x).drop_first() =~= Seq::<T>::empty());
        assert(find_first(Seq::<T>::empty(), p) is None);
    } else {
        assert(s.push(x)[0] == s[0]);
        assert(s.push(x).drop_first() =~= s.drop_first().push(x));
        lemma_find_first_push(s.drop_first(), p, x);
    }
}

/// The predicate "this user record has the given uid".
pub open spec fn uid_pred(uid: u32) -> spec_fn(UserView) -> bool {
    |u: UserView| u.uid == uid
}

/// The predicate "this user record has the given name".
pub open spec fn uname_pred(name: Seq<u8>) -> spec_fn(UserView) -> bool {
    |u: UserView| u.name == name
}

/// The predicate "this group record has the given gid".
pub open spec fn gid_pred(gid: u32) -> spec_fn(GroupView) -> bool {
    |g: GroupView| g.gid == gid
}

/// The predicate "this group record has the given name".
pub open spec fn gname_pred(name: Seq<u8>) -> spec_fn(GroupView) -> bool {
    |g: GroupView| g.name == name
}

/// The predicate "this membership entry is for the given name".
pub open spec fn sname_pred(name: Seq<u8>) -> spec_fn(SuppView) -> bool {
    |e: SuppView| e.name == name
}

/// The id-keyed user mapping a record table presents.
pub open spec fn user_id_map(s: Seq<UserView>) -> Map<u32, UserView> {
    Map::new(
        |i: u32| find_first(s, uid_pred(i)) is Some,
        |i: u32|
            match find_first(s, uid_pred(i)) {
                Some(u) => u,
                None => vstd::pervasive::arbitrary(),
            },
    )
}

/// The name-keyed user mapping a record table presents.
pub open spec fn user_name_map(s: Seq<UserView>) -> Map<Seq<u8>, UserView> {
    Map::new(
        |n: Seq<u8>| find_first(s, uname_pred(n)) is Some,
        |n: Seq<u8>|
            match find_first(s, uname_pred(n)) {
                Some(u) => u,
                None => vstd::pervasive::arbitrary(),
            },
    )
}

/// The id-keyed group mapping a record table presents.
pub open spec fn group_id_map(s: Seq<GroupView>) -> Map<u32, GroupView> {
    Map::new(
        |i: u32| find_first(s, gid_pred(i)) is Some,
        |i: u32|
            match find_first(s, gid_pred(i)) {
                Some(g) => g,
                None => vstd::pervasive::arbitrary(),
            },
    )
}

/// The name-keyed group mapping a record table presents.
pub open spec fn group_name_map(s: Seq<GroupView>) -> Map<Seq<u8>, GroupView> {
    Map::new(
        |n: Seq<u8>| find_first(s, gname_pred(n)) is Some,
        |n: Seq<u8>|
            match find_first(s, gname_pred(n)) {
                Some(g) => g,
                None => vstd::pervasive::arbitrary(),
            },
    )
}

/// The name-keyed supplementary-gid mapping a membership table presents.
pub open spec fn supp_gid_map(s: Seq<SuppView>) -> Map<Seq<u8>, Seq<u32>> {
    Map::new(
        |n: Seq<u8>| find_first(s, sname_pred(n)) is Some,
        |n: Seq<u8>|
            match find_first(s, sname_pred(n)) {
                Some(e) => e.gids,
                None => vstd::pervasive::arbitrary(),
            },
    )
}

/// The mathematical value of a membership entry: a user name and the gids of
/// the supplementary groups recorded for it.
#[verifier::ext_equal]
pub ghost struct SuppView {
    pub name: Seq<u8>,
    pub gids: Seq<u32>,
}

/// One membership entry of the table.
struct SuppEntry {
    name: Vec<u8>,
    gids: Vec<u32>,
}

impl View for SuppEntry {
    type V = SuppView;

    closed spec fn view(&self) -> SuppView {
        SuppView { name: self.name@, gids: self.gids@ }
    }
}

/// Finds the first membership entry for the given name.
fn find_supp_name(v: &Vec<SuppEntry>, name: &Vec<u8>) -> (r: Option<usize>)
    ensures
        (match r {
            Some(k) => k < v@.len() && v@[k as int]@.name == name@ && forall|i: int|
                0 <= i < k ==> (#[trigger] v@[i])@.name != name@,
            None => forall|i: int| 0 <= i < v@.len() ==> (#[trigger] v@[i])@.name != name@,
        }),
{
    let mut k: usize = 0;
    while k < v.len()
        invariant
            k <= v@.len(),
            forall|i: int| 0 <= i < k ==> (#[trigger] v@[i])@.name != name@,
        decreases v@.len() - k,
    {
        let e = &v[k];
        if bytes_eq(&e.name, name) {
            return Some(k);
        }
        k = k + 1;
    }
    None
}

/// A seeded identity database: explicit user, group and membership tables,
/// plus a count of the queries made of it.
pub struct TableOracle {
    users: Vec<User>,
    groups: Vec<Group>,
    supp: Vec<SuppEntry>,
    calls: u64,
}

impl TableOracle {
    /// The views of the user records, in insertion order.
    pub closed spec fn uviews(&self) -> Seq<UserView> {
        self.users@.map_values(|u: User| u@)
    }

    /// The views of the group records, in insertion order.
    pub closed spec fn gviews(&self) -> Seq<GroupView> {
        self.groups@.map_values(|g: Group| g@)
    }

    /// The views of the membership entries, in insertion order.
    pub closed spec fn sviews(&self) -> Seq<SuppView> {
        self.supp@.map_values(|e: SuppEntry| e@)
    }

    /// How many queries have been made of this oracle.
    pub closed spec fn call_count(&self) -> u64 {
        self.calls
    }

    /// Well-formedness of the seeded tables: ids and names are unique per
    /// entity kind and every name is null-free, as the host's database
    /// guarantees of its own records.
    pub closed spec fn wf(&self) -> bool {
        &&& forall|i: int, j: int|
            0 <= i < j < self.uviews().len() ==> (#[trigger] self.uviews()[i]).uid != (
            #[trigger] self.uviews()[j]).uid && self.uviews()[i].name != self.uviews()[j].name
        &&& forall|i: int| 0 <= i < self.uviews().len() ==> null_free(
            (#[trigger] self.uviews()[i]).name,
        )
        &&& forall|i: int, j: int|
            0 <= i < j < self.gviews().len() ==> (#[trigger] self.gviews()[i]).gid != (
            #[trigger] self.gviews()[j]).gid && self.gviews()[i].name != self.gviews()[j].name
        &&& forall|i: int| 0 <= i < self.gviews().len() ==> null_free(
            (#[trigger] self.gviews()[i]).name,
        )
    }

    /// Reads the query counter.
    pub fn calls(&self) -> (r: u64)
        ensures
            r == self.call_count(),
    {
        self.calls
    }

    /// Notes one query, saturating rather than overflowing.
    fn note_call(&mut self)
        ensures
            final(self).users@ == old(self).users@,
            final(self).groups@ == old(self).groups@,
            final(self).supp@ == old(self).supp@,
            final(self).uviews() == old(self).uviews(),
            final(self).gviews() == old(self).gviews(),
            final(self).sviews() == old(self).sviews(),
            final(self).db() == old(self).db(),
            final(self).wf() == old(self).wf(),
    {
        if self.calls < u64::MAX {
            self.calls = self.calls + 1;
        }
    }

    /// Creates an empty table: the degenerate oracle mode, in which every
    /// lookup — by either key, for either entity kind — reports "not found",
    /// the membership mapping is empty, and the enumeration yields nothing.
    pub fn new() -> (r: TableOracle)
        ensures
            r.wf(),
            r.call_count() == 0,
            db_coherent(r.db()),
            r.db().all == Seq::<UserView>::empty(),
            forall|i: u32| #[trigger] spec_user_by_id(r.db(), i) is None,
            forall|n: Seq<u8>| #[trigger] spec_user_by_name(r.db(), n) is None,
            forall|i: u32| #[trigger] spec_group_by_id(r.db(), i) is None,
            forall|n: Seq<u8>| #[trigger] spec_group_by_name(r.db(), n) is None,
            r.db().supp == Map::<Seq<u8>, Seq<u32>>::empty(),
    {
        let r = TableOracle { users: Vec::new(), groups: Vec::new(), supp: Vec::new(), calls: 0 };
        proof {
            assert(r.uviews() =~= Seq::<UserView>::empty());
            assert(r.gviews() =~= Seq::<GroupView>::empty());
            assert(r.sviews() =~= Seq::<SuppView>::empty());
            lemma_table_coherent(&r);
            assert forall|i: u32| #[trigger] spec_user_by_id(r.db(), i) is None by {
                lemma_find_first_none(r.uviews(), uid_pred(i));
            };
            assert forall|n: Seq<u8>| #[trigger] spec_user_by_name(r.db(), n) is None by {
                lemma_find_first_none(r.uviews(), uname_pred(n));
            };
            assert forall|i: u32| #[trigger] spec_group_by_id(r.db(), i) is None by {
                lemma_find_first_none(r.gviews(), gid_pred(i));
            };
            assert forall|n: Seq<u8>| #[trigger] spec_group_by_name(r.db(), n) is None by {
                lemma_find_first_none(r.gviews(), gname_pred(n));
            };
            assert_maps_equal!(r.db().supp, Map::<Seq<u8>, Seq<u32>>::empty(), nm => {
                lemma_find_first_none(r.sviews(), sname_pred(nm));
            });
        }
        r
    }

    /// Seeds one user record. Refused (returning `false`, with the table
    /// unchanged) when the name holds a null byte or the table already has a
    /// record under this uid or name; a real database never holds two records
    /// sharing a key.
    pub fn add_user(&mut self, user: User) -> (r: bool)
        requires
            old(self).wf(),
        ensures
            ({
                let pre = *old(self);
                let post = *final(self);
                &&& post.wf()
                &&& db_coherent(post.db())
                &&& post.call_count() == pre.call_count()
                &&& r == (null_free(user@.name) && spec_user_by_id(pre.db(), user@.uid) is None
                    && spec_user_by_name(pre.db(), user@.name) is None)
                &&& (r ==> {
                    &&& spec_user_by_id(post.db(), user@.uid) == Some(user@)
                    &&& spec_user_by_name(post.db(), user@.name) == Some(user@)
                    &&& (forall|i: u32|
                        i != user@.uid ==> spec_user_by_id(post.db(), i) == spec_user_by_id(
                            pre.db(),
                            i,
                        ))
                    &&& (forall|n: Seq<u8>|
                        n != user@.name ==> spec_user_by_name(post.db(), n) == spec_user_by_name(
                            pre.db(),
                            n,
                        ))
                    &&& post.db().group_id == pre.db().group_id
                    &&& post.db().group_name == pre.db().group_name
                    &&& post.db().supp == pre.db().supp
                    &&& post.db().all == pre.db().all.push(user@)
                })
                &&& (!r ==> post == pre)
            }),
    {
        if has_null_byte(user.name()) {
            proof {
                lemma_table_coherent(&*self);
            }
            return false;
        }
        let uid = user.uid();
        match find_user_uid(&self.users, uid) {
            Some(k) => {
                proof {
                    assert forall|i: int| 0 <= i < k implies !uid_pred(uid)(
                        #[trigger] self.uviews()[i],
                    ) by {
                        assert(self.uviews()[i] == self.users@[i]@);
                    };
                    assert(self.uviews()[k as int] == self.users@[k as int]@);
                    lemma_find_first_at(self.uviews(), uid_pred(uid), k as int);
                    lemma_table_coherent(&*self);
                }
                return false;
            },
            None => {},
        }
        match find_user_name(&self.users, user.name()) {
            Some(k) => {
                proof {
                    assert forall|i: int| 0 <= i < k implies !uname_pred(user@.name)(
                        #[trigger] self.uviews()[i],
                    ) by {
                        assert(self.uviews()[i] == self.users@[i]@);
                    };
                    assert(self.uviews()[k as int] == self.users@[k as int]@);
                    lemma_find_first_at(self.uviews(), uname_pred(user@.name), k as int);
                    lemma_table_coherent(&*self);
                }
                return false;
            },
            None => {},
        }
        proof {
            assert forall|i: int| 0 <= i < self.uviews().len() implies !uid_pred(uid)(
                #[trigger] self.uviews()[i],
            ) && !uname_pred(user@.name)(self.uviews()[i]) by {
                assert(self.uviews()[i] == self.users@[i]@);
            };
            lemma_find_first_none(self.uviews(), uid_pred(uid));
            lemma_find_first_none(self.uviews(), uname_pred(user@.name));
        }
        let ghost pre = *self;
        let ghost uv = user@;
        self.users.push(user);
        proof {
            let us0 = pre.uviews();
            let us1 = self.uviews();
            let n = us0.len() as int;
            assert(us1 =~= us0.push(uv));
            assert(self.gviews() == pre.gviews());
            assert(self.sviews() == pre.sviews());
            assert forall|i: int, j: int| 0 <= i < j < us1.len() implies (#[trigger] us1[i]).uid
                != (#[trigger] us1[j]).uid && us1[i].name != us1[j].name by {
                assert(us1[i] == us0[i]);
                if j < n {
                    assert(us1[j] == us0[j]);
                } else {
                    assert(us1[j] == uv);
                    assert(us0[i] == pre.users@[i]@);
                }
            };
            assert forall|i: int| 0 <= i < us1.len() implies null_free(
                (#[trigger] us1[i]).name,
            ) by {
                if i < n {
                    assert(us1[i] == us0[i]);
                } else {
                    assert(us1[i] == uv);
                }
            };
            lemma_find_first_push(us0, uid_pred(uv.uid), uv);
            lemma_find_first_push(us0, uname_pred(uv.name), uv);
            assert(uid_pred(uv.uid)(uv));
            assert(uname_pred(uv.name)(uv));
            assert forall|i: u32| i != uv.uid implies spec_user_by_id(self.db(), i)
                == spec_user_by_id(pre.db(), i) by {
                lemma_find_first_push(us0, uid_pred(i), uv);
                assert(!uid_pred(i)(uv));
            };
            assert forall|nm: Seq<u8>| nm != uv.name implies spec_user_by_name(self.db(), nm)
                == spec_user_by_name(pre.db(), nm) by {
                lemma_find_first_push(us0, uname_pred(nm), uv);
                assert(!uname_pred(nm)(uv));
            };
            lemma_table_coherent(&*self);
        }
        true
    }

    /// Seeds one group record. Refused (returning `false`, with the table
    /// unchanged) when the name holds a null byte or the table already has a
    /// record under this gid or name.
    pub fn add_group(&mut self, group: Group) -> (r: bool)
        requires
            old(self).wf(),
        ensures
            ({
                let pre = *old(self);
                let post = *final(self);
                &&& post.wf()
                &&& db_coherent(post.db())
                &&& post.call_count() == pre.call_count()
                &&& r == (null_free(group@.name) && spec_group_by_id(pre.db(), group@.gid) is None
                    && spec_group_by_name(pre.db(), group@.name) is None)
                &&& (r ==> {
                    &&& spec_group_by_id(post.db(), group@.gid) == Some(group@)
                    &&& spec_group_by_name(post.db(), group@.name) == Some(group@)
                    &&& (forall|i: u32|
                        i != group@.gid ==> spec_group_by_id(post.db(), i) == spec_group_by_id(
                            pre.db(),
                            i,
                        ))
                    &&& (forall|n: Seq<u8>|
                        n != group@.name ==> spec_group_by_name(post.db(), n)
                            == spec_group_by_name(pre.db(), n))
                    &&& post.db().user_id == pre.db().user_id
                    &&& post.db().user_name == pre.db().user_name
                    &&& post.db().supp == pre.db().supp
                    &&& post.db().all == pre.db().all
                })
                &&& (!r ==> post == pre)
            }),
    {
        if has_null_byte(group.name()) {
            proof {
                lemma_table_coherent(&*self);
            }
            return false;
        }
        let gid = group.gid();
        match find_group_gid(&self.groups, gid) {
            Some(k) => {
                proof {
                    assert forall|i: int| 0 <= i < k implies !gid_pred(gid)(
                        #[trigger] self.gviews()[i],
                    ) by {
                        assert(self.gviews()[i] == self.groups@[i]@);
                    };
                    assert(self.gviews()[k as int] == self.groups@[k as int]@);
                    lemma_find_first_at(self.gviews(), gid_pred(gid), k as int);
                    lemma_table_coherent(&*self);
                }
                return false;
            },
            None => {},
        }
        match find_group_name(&self.groups, group.name()) {
            Some(k) => {
                proof {
                    assert forall|i: int| 0 <= i < k implies !gname_pred(group@.name)(
                        #[trigger] self.gviews()[i],
                    ) by {
                        assert(self.gviews()[i] == self.groups@[i]@);
                    };
                    assert(self.gviews()[k as int] == self.groups@[k as int]@);
                    lemma_find_first_at(self.gviews(), gname_pred(group@.name), k as int);
                    lemma_table_coherent(&*self);
                }
                return false;
            },
            None => {},
        }
        proof {
            assert forall|i: int| 0 <= i < self.gviews().len() implies !gid_pred(gid)(
                #[trigger] self.gviews()[i],
            ) && !gname_pred(group@.name)(self.gviews()[i]) by {
                assert(self.gviews()[i] == self.groups@[i]@);
            };
            lemma_find_first_none(self.gviews(), gid_pred(gid));
            lemma_find_first_none(self.gviews(), gname_pred(group@.name));
        }
        let ghost pre = *self;
        let ghost gv = group@;
        self.groups.push(group);
        proof {
            let gs0 = pre.gviews();
            let gs1 = self.gviews();
            let n = gs0.len() as int;
            assert(gs1 =~= gs0.push(gv));
            assert(self.uviews() == pre.uviews());
            assert(self.sviews() == pre.sviews());
            assert forall|i: int, j: int| 0 <= i < j < gs1.len() implies (#[trigger] gs1[i]).gid
                != (#[trigger] gs1[j]).gid && gs1[i].name != gs1[j].name by {
                assert(gs1[i] == gs0[i]);
                if j < n {
                    assert(gs1[j] == gs0[j]);
                } else {
                    assert(gs1[j] == gv);
                    assert(gs0[i] == pre.groups@[i]@);
                }
            };
            assert forall|i: int| 0 <= i < gs1.len() implies null_free(
                (#[trigger] gs1[i]).name,
            ) by {
                if i < n {
                    assert(gs1[i] == gs0[i]);
                } else {
                    assert(gs1[i] == gv);
                }
            };
            lemma_find_first_push(gs0, gid_pred(gv.gid), gv);
            lemma_find_first_push(gs0, gname_pred(gv.name), gv);
            assert(gid_pred(gv.gid)(gv));
            assert(gname_pred(gv.name)(gv));
            assert forall|i: u32| i != gv.gid implies spec_group_by_id(self.db(), i)
                == spec_group_by_id(pre.db(), i) by {
                lemma_find_first_push(gs0, gid_pred(i), gv);
                assert(!gid_pred(i)(gv));
            };
            assert forall|nm: Seq<u8>| nm != gv.name implies spec_group_by_name(self.db(), nm)
                == spec_group_by_name(pre.db(), nm) by {
                lemma_find_first_push(gs0, gname_pred(nm), gv);
                assert(!gname_pred(nm)(gv));
            };
            lemma_table_coherent(&*self);
        }
        true
    }

    /// Seeds the supplementary group ids recorded for a user name. Refused
    /// (returning `false`, with the table unchanged) when the table already
    /// has an entry for this name.
    pub fn add_supp_gids(&mut self, name: Vec<u8>, gids: Vec<u32>) -> (r: bool)
        requires
            old(self).wf(),
        ensures
            ({
                let pre = *old(self);
                let post = *final(self);
                &&& post.wf()
                &&& db_coherent(post.db())
                &&& post.call_count() == pre.call_count()
                &&& r == !pre.db().supp.dom().contains(name@)
                &&& (r ==> {
                    &&& post.db().supp == pre.db().supp.insert(name@, gids@)
                    &&& post.db().user_id == pre.db().user_id
                    &&& post.db().user_name == pre.db().user_name
                    &&& post.db().group_id == pre.db().group_id
                    &&& post.db().group_name == pre.db().group_name
                    &&& post.db().all == pre.db().all
                })
                &&& (!r ==> post == pre)
            }),
    {
        match find_supp_name(&self.supp, &name) {
            Some(k) => {
                proof {
                    assert forall|i: int| 0 <= i < k implies !sname_pred(name@)(
                        #[trigger] self.sviews()[i],
                    ) by {
                        assert(self.sviews()[i] == self.supp@[i]@);
                    };
                    assert(self.sviews()[k as int] == self.supp@[k as int]@);
                    lemma_find_first_at(self.sviews(), sname_pred(name@), k as int);
                    lemma_table_coherent(&*self);
                }
                false
            },
            None => {
                proof {
                    assert forall|i: int| 0 <= i < self.sviews().len() implies !sname_pred(name@)(
                        #[trigger] self.sviews()[i],
                    ) by {
                        assert(self.sviews()[i] == self.supp@[i]@);
                    };
                    lemma_find_first_none(self.sviews(), sname_pred(name@));
                }
                let ghost pre = *self;
                let ghost sv = SuppView { name: name@, gids: gids@ };
                self.supp.push(SuppEntry { name, gids });
                proof {
                    let ss0 = pre.sviews();
                    let ss1 = self.sviews();
                    assert(ss1 =~= ss0.push(sv));
                    assert(self.uviews() == pre.uviews());
                    assert(self.gviews() == pre.gviews());
                    lemma_find_first_push(ss0, sname_pred(sv.name), sv);
                    assert(sname_pred(sv.name)(sv));
                    let target = pre.db().supp.insert(sv.name, sv.gids);
                    assert_maps_equal!(self.db().supp, target, nm => {
                        lemma_find_first_push(ss0, sname_pred(nm), sv);
                        if nm == sv.name {
                            assert(sname_pred(nm)(sv));
                        } else {
                            assert(!sname_pred(nm)(sv));
                        }
                    });
                    lemma_table_coherent(&*self);
                }
                true
            },
        }
    }
}

/// A well-formed table presents a coherent database: each mapping is keyed
/// by the record's own field, the id-keyed and name-keyed sides agree, names
/// are null-free, and every enumerated record is retrievable both ways.
pub proof fn lemma_table_coherent(t: &TableOracle)
    requires
        t.wf(),
    ensures
        db_coherent(t.db()),
{
    let db = t.db();
    let us = t.uviews();
    let gs = t.gviews();
    assert forall|n: Seq<u8>| #[trigger] db.user_name.dom().contains(n) implies {
        let u = db.user_name[n];
        &&& u.name == n
        &&& null_free(n)
        &&& db.user_id.dom().contains(u.uid)
        &&& db.user_id[u.uid] == u
    } by {
        lemma_find_first_some(us, uname_pred(n));
        let k = choose|k: int|
            0 <= k < us.len() && uname_pred(n)(#[trigger] us[k]) && find_first(us, uname_pred(n))
                == Some(us[k]) && (forall|i: int| 0 <= i < k ==> !uname_pred(n)(us[i]));
        assert forall|i: int| 0 <= i < k implies !uid_pred(us[k].uid)(#[trigger] us[i]) by {}
        lemma_find_first_at(us, uid_pred(us[k].uid), k);
    };
    assert forall|i: u32| #[trigger] db.user_id.dom().contains(i) implies {
        let u = db.user_id[i];
        &&& u.uid == i
        &&& db.user_name.dom().contains(u.name)
        &&& db.user_name[u.name] == u
    } by {
        lemma_find_first_some(us, uid_pred(i));
        let k = choose|k: int|
            0 <= k < us.len() && uid_pred(i)(#[trigger] us[k]) && find_first(us, uid_pred(i))
                == Some(us[k]) && (forall|j: int| 0 <= j < k ==> !uid_pred(i)(us[j]));
        assert forall|j: int| 0 <= j < k implies !uname_pred(us[k].name)(#[trigger] us[j]) by {}
        lemma_find_first_at(us, uname_pred(us[k].name), k);
    };
    assert forall|n: Seq<u8>| #[trigger] db.group_name.dom().contains(n) implies {
        let g = db.group_name[n];
        &&& g.name == n
        &&& null_free(n)
        &&& db.group_id.dom().contains(g.gid)
        &&& db.group_id[g.gid] == g
    } by {
        lemma_find_first_some(gs, gname_pred(n));
        let k = choose|k: int|
            0 <= k < gs.len() && gname_pred(n)(#[trigger] gs[k]) && find_first(gs, gname_pred(n))
                == Some(gs[k]) && (forall|i: int| 0 <= i < k ==> !gname_pred(n)(gs[i]));
        assert forall|i: int| 0 <= i < k implies !gid_pred(gs[k].gid)(#[trigger] gs[i]) by {}
        lemma_find_first_at(gs, gid_pred(gs[k].gid), k);
    };
    assert forall|i: u32| #[trigger] db.group_id.dom().contains(i) implies {
        let g = db.group_id[i];
        &&& g.gid == i
        &&& db.group_name.dom().contains(g.name)
        &&& db.group_name[g.name] == g
    } by {
        lemma_find_first_some(gs, gid_pred(i));
        let k = choose|k: int|
            0 <= k < gs.len() && gid_pred(i)(#[trigger] gs[k]) && find_first(gs, gid_pred(i))
                == Some(gs[k]) && (forall|j: int| 0 <= j < k ==> !gid_pred(i)(gs[j]));
        assert forall|j: int| 0 <= j < k implies !gname_pred(gs[k].name)(#[trigger] gs[j]) by {}
        lemma_find_first_at(gs, gname_pred(gs[k].name), k);
    };
    assert forall|k: int| 0 <= k < db.all.len() implies {
        let u = #[trigger] db.all[k];
        &&& db.user_id.dom().contains(u.uid)
        &&& db.user_id[u.uid] == u
    } by {
        assert forall|i: int| 0 <= i < k implies !uid_pred(us[k].uid)(#[trigger] us[i]) by {}
        lemma_find_first_at(us, uid_pred(us[k].uid), k);
    };
}

impl IdentityDb for TableOracle {
    closed spec fn db(&self) -> DbView {
        DbView {
            user_id: user_id_map(self.uviews()),
            user_name: user_name_map(self.uviews()),
            group_id: group_id_map(self.gviews()),
            group_name: group_name_map(self.gviews()),
            supp: supp_gid_map(self.sviews()),
            all: self.uviews(),
        }
    }

    fn lookup_user_by_id(&mut self, uid: u32) -> (r: Option<User>) {
        self.note_call();
        match find_user_uid(&self.users, uid) {
            Some(k) => {
                proof {
                    assert forall|i: int| 0 <= i < k implies !uid_pred(uid)(
                        #[trigger] self.uviews()[i],
                    ) by {
                        assert(self.uviews()[i] == self.users@[i]@);
                    };
                    assert(self.uviews()[k as int] == self.users@[k as int]@);
                    lemma_find_first_at(self.uviews(), uid_pred(uid), k as int);
                }
                let u = &self.users[k];
                Some(u.clone())
            },
            None => {
                proof {
                    assert forall|i: int| 0 <= i < self.uviews().len() implies !uid_pred(uid)(
                        #[trigger] self.uviews()[i],
                    ) by {
                        assert(self.uviews()[i] == self.users@[i]@);
                    };
                    lemma_find_first_none(self.uviews(), uid_pred(uid));
                }
                None
            },
        }
    }

    fn lookup_user_by_name(&mut self, name: &Vec<u8>) -> (r: Option<User>) {
        self.note_call();
        match find_user_name(&self.users, name) {
            Some(k) => {
                proof {
                    assert forall|i: int| 0 <= i < k implies !uname_pred(name@)(
                        #[trigger] self.uviews()[i],
                    ) by {
                        assert(self.uviews()[i] == self.users@[i]@);
                    };
                    assert(self.uviews()[k as int] == self.users@[k as int]@);
                    lemma_find_first_at(self.uviews(), uname_pred(name@), k as int);
                }
                let u = &self.users[k];
                Some(u.clone())
            },
            None => {
                proof {
                    assert forall|i: int| 0 <= i < self.uviews().len() implies !uname_pred(name@)(
                        #[trigger] self.uviews()[i],
                    ) by {
                        assert(self.uviews()[i] == self.users@[i]@);
                    };
                    lemma_find_first_none(self.uviews(), uname_pred(name@));
                }
                None
            },
        }
    }

    fn lookup_group_by_id(&mut self, gid: u32) -> (r: Option<Group>) {
        self.note_call();
        match find_group_gid(&self.groups, gid) {
            Some(k) => {
                proof {
                    assert forall|i: int| 0 <= i < k implies !gid_pred(gid)(
                        #[trigger] self.gviews()[i],
                    ) by {
                        assert(self.gviews()[i] == self.groups@[i]@);
                    };
                    assert(self.gviews()[k as int] == self.groups@[k as int]@);
                    lemma_find_first_at(self.gviews(), gid_pred(gid), k as int);
                }
                let g = &self.groups[k];
                Some(g.clone())
            },
            None => {
                proof {
                    assert forall|i: int| 0 <= i < self.gviews().len() implies !gid_pred(gid)(
                        #[trigger] self.gviews()[i],
                    ) by {
                        assert(self.gviews()[i] == self.groups@[i]@);
                    };
                    lemma_find_first_none(self.gviews(), gid_pred(gid));
                }
                None
            },
        }
    }

    fn lookup_group_by_name(&mut self, name: &Vec<u8>) -> (r: Option<Group>) {
        self.note_call();
        match find_group_name(&self.groups, name) {
            Some(k) => {
                proof {
                    assert forall|i: int| 0 <= i < k implies !gname_pred(name@)(
                        #[trigger] self.gviews()[i],
                    ) by {
                        assert(self.gviews()[i] == self.groups@[i]@);
                    };
                    assert(self.gviews()[k as int] == self.groups@[k as int]@);
                    lemma_find_first_at(self.gviews(), gname_pred(name@), k as int);
                }
                let g = &self.groups[k];
                Some(g.clone())
            },
            None => {
                proof {
                    assert forall|i: int| 0 <= i < self.gviews().len() implies !gname_pred(name@)(
                        #[trigger] self.gviews()[i],
                    ) by {
                        assert(self.gviews()[i] == self.groups@[i]@);
                    };
                    lemma_find_first_none(self.gviews(), gname_pred(name@));
                }
                None
            },
        }
    }

    fn supplementary_groups(&mut self, name: &Vec<u8>, gid: u32) -> (r: Option<Vec<u32>>) {
        self.note_call();
        match find_user_name(&self.users, name) {
            None => {
                proof {
                    assert forall|i: int| 0 <= i < self.uviews().len() implies !uname_pred(name@)(
                        #[trigger] self.uviews()[i],
                    ) by {
                        assert(self.uviews()[i] == self.users@[i]@);
                    };
                    lemma_find_first_none(self.uviews(), uname_pred(name@));
                }
                None
            },
            Some(k) => {
                proof {
                    assert forall|i: int| 0 <= i < k implies !uname_pred(name@)(
                        #[trigger] self.uviews()[i],
                    ) by {
                        assert(self.uviews()[i] == self.users@[i]@);
                    };
                    assert(self.uviews()[k as int] == self.users@[k as int]@);
                    lemma_find_first_at(self.uviews(), uname_pred(name@), k as int);
                }
                let mut out: Vec<u32> = Vec::new();
                out.push(gid);
                match find_supp_name(&self.supp, name) {
                    None => {
                        proof {
                            assert forall|i: int|
                                0 <= i < self.sviews().len() implies !sname_pred(name@)(
                                #[trigger] self.sviews()[i],
                            ) by {
                                assert(self.sviews()[i] == self.supp@[i]@);
                            };
                            lemma_find_first_none(self.sviews(), sname_pred(name@));
                            assert(out@ =~= seq![gid] + Seq::<u32>::empty());
                        }
                        Some(out)
                    },
                    Some(j) => {
                        proof {
                            assert forall|i: int| 0 <= i < j implies !sname_pred(name@)(
                                #[trigger] self.sviews()[i],
                            ) by {
                                assert(self.sviews()[i] == self.supp@[i]@);
                            };
                            assert(self.sviews()[j as int] == self.supp@[j as int]@);
                            lemma_find_first_at(self.sviews(), sname_pred(name@), j as int);
                        }
                        let e = &self.supp[j];
                        let mut i: usize = 0;
                        while i < e.gids.len()
                            invariant
                                i <= e.gids@.len(),
                                out@ == seq![gid] + e.gids@.subrange(0, i as int),
                            decreases e.gids@.len() - i,
                        {
                            out.push(e.gids[i]);
                            assert(seq![gid] + e.gids@.subrange(0, i as int + 1) =~= (seq![gid]
                                + e.gids@.subrange(0, i as int)).push(e.gids@[i as int]));
                            i = i + 1;
                        }
                        proof {
                            assert(e.gids@.subrange(0, e.gids@.len() as int) =~= e.gids@);
                        }
                        Some(out)
                    },
                }
            },
        }
    }

    fn enumerate_all_users(&mut self) -> (r: Vec<User>) {
        self.note_call();
        let ghost snap = *self;
        let mut out: Vec<User> = Vec::new();
        let mut k: usize = 0;
        proof {
            assert(out@.map_values(|u: User| u@) =~= snap.uviews().subrange(0, 0));
        }
        while k < self.users.len()
            invariant
                *self == snap,
                k <= self.users@.len(),
                out@.map_values(|u: User| u@) == snap.uviews().subrange(0, k as int),
            decreases self.users@.len() - k,
        {
            let uref = &self.users[k];
            let u2 = uref.clone();
            let ghost out_pre = out@;
            let ghost uv = u2@;
            out.push(u2);
            proof {
                assert(snap.uviews()[k as int] == snap.users@[k as int]@);
                assert(out@.map_values(|u: User| u@) =~= out_pre.map_values(|u: User| u@).push(
                    uv,
                ));
                assert(snap.uviews().subrange(0, k as int + 1) =~= snap.uviews().subrange(
                    0,
                    k as int,
                ).push(snap.uviews()[k as int]));
            }
            k = k + 1;
        }
        proof {
            assert(snap.uviews().subrange(0, snap.uviews().len() as int) =~= snap.uviews());
        }
        out
    }
}

} // verus!

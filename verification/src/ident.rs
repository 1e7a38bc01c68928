//! The entity model: immutable `User` and `Group` values.

use vstd::prelude::*;

verus! {

/// The mathematical value of a [`User`]: its numeric id, the id of its
/// primary group, and its name as a raw byte string.
#[verifier::ext_equal]
pub ghost struct UserView {
    pub uid: u32,
    pub primary_group: u32,
    pub name: Seq<u8>,
}

/// The mathematical value of a [`Group`]: its numeric id and its name as a
/// raw byte string.
#[verifier::ext_equal]
pub ghost struct GroupView {
    pub gid: u32,
    pub name: Seq<u8>,
}

/// A byte string that could name a real account: it holds no null byte.
/// Names are conceptually null-terminated, so a name with an embedded null
/// byte cannot correspond to any account.
pub open spec fn null_free(s: Seq<u8>) -> bool {
    forall|i: int| 0 <= i < s.len() ==> s[i] != 0
}

/// Copies a byte string.
pub fn clone_bytes(v: &Vec<u8>) -> (r: Vec<u8>)
    ensures
        r@ == v@,
{
    let mut r: Vec<u8> = Vec::new();
    let mut k: usize = 0;
    while k < v.len()
        invariant
            k <= v@.len(),
            r@ == v@.subrange(0, k as int),
        decreases v@.len() - k,
    {
        r.push(v[k]);
        assert(v@.subrange(0, k as int + 1) =~= v@.subrange(0, k as int).push(v@[k as int]));
        k = k + 1;
    }
    assert(v@.subrange(0, v@.len() as int) =~= v@);
    r
}

/// Compares two byte strings for equality.
pub fn bytes_eq(a: &Vec<u8>, b: &Vec<u8>) -> (r: bool)
    ensures
        r == (a@ == b@),
{
    if a.len() != b.len() {
        assert(a@ != b@) by {
            if a@ == b@ {
                assert(a@.len() == b@.len());
            }
        };
        return false;
    }
    let mut k: usize = 0;
    while k < a.len()
        invariant
            a@.len() == b@.len(),
            k <= a@.len(),
            forall|i: int| 0 <= i < k ==> a@[i] == b@[i],
        decreases a@.len() - k,
    {
        if a[k] != b[k] {
            return false;
        }
        k = k + 1;
    }
    assert(a@ =~= b@);
    true
}

/// Reports whether a name holds an embedded null byte.
pub fn has_null_byte(name: &Vec<u8>) -> (r: bool)
    ensures
        r == !null_free(name@),
{
    let mut k: usize = 0;
    while k < name.len()
        invariant
            k <= name@.len(),
            forall|i: int| 0 <= i < k ==> name@[i] != 0,
        decreases name@.len() - k,
    {
        if name[k] == 0 {
            return true;
        }
        k = k + 1;
    }
    false
}

/// Information about a particular user. Immutable after construction.
#[derive(Debug)]
pub struct User {
    uid: u32,
    primary_group: u32,
    name: Vec<u8>,
}

impl View for User {
    type V = UserView;

    closed spec fn view(&self) -> UserView {
        UserView { uid: self.uid, primary_group: self.primary_group, name: self.name@ }
    }
}

impl Clone for User {
    fn clone(&self) -> (r: Self)
        ensures
            r@ == self@,
    {
        User { uid: self.uid, primary_group: self.primary_group, name: clone_bytes(&self.name) }
    }
}

impl User {
    /// Creates a synthetic `User` with the given user id, name, and primary
    /// group id. No account is created on the host and no oracle is
    /// consulted: the value need not correspond to any real account and is
    /// meant for comparisons and tests.
    pub fn new(uid: u32, name: Vec<u8>, primary_group: u32) -> (r: Self)
        ensures
            r@.uid == uid,
            r@.primary_group == primary_group,
            r@.name == name@,
    {
        User { uid, primary_group, name }
    }

    /// Returns this user's id.
    pub fn uid(&self) -> (r: u32)
        ensures
            r == self@.uid,
    {
        self.uid
    }

    /// Returns this user's name.
    pub fn name(&self) -> (r: &Vec<u8>)
        ensures
            r@ == self@.name,
    {
        &self.name
    }

    /// Returns the id of this user's primary group.
    pub fn primary_group_id(&self) -> (r: u32)
        ensures
            r == self@.primary_group,
    {
        self.primary_group
    }
}

/// Information about a particular group. Immutable after construction.
#[derive(Debug)]
pub struct Group {
    gid: u32,
    name: Vec<u8>,
}

impl View for Group {
    type V = GroupView;

    closed spec fn view(&self) -> GroupView {
        GroupView { gid: self.gid, name: self.name@ }
    }
}

impl Clone for Group {
    fn clone(&self) -> (r: Self)
        ensures
            r@ == self@,
    {
        Group { gid: self.gid, name: clone_bytes(&self.name) }
    }
}

impl Group {
    /// Creates a synthetic `Group` with the given group id and name. No
    /// group is created on the host and no oracle is consulted: the value
    /// need not correspond to any real group and is meant for comparisons
    /// and tests.
    pub fn new(gid: u32, name: Vec<u8>) -> (r: Self)
        ensures
            r@.gid == gid,
            r@.name == name@,
    {
        Group { gid, name }
    }

    /// Returns this group's id.
    pub fn gid(&self) -> (r: u32)
        ensures
            r == self@.gid,
    {
        self.gid
    }

    /// Returns this group's name.
    pub fn name(&self) -> (r: &Vec<u8>)
        ensures
            r@ == self@.name,
    {
        &self.name
    }
}

} // verus!

//! uid/gid to name lookup.
//!
//! Lookups go through the system's user and group databases (via `uzers`).
//! On lookup failure the numeric id, in decimal, stands in for the name.
//! A `NameCache` remembers every answer so a long listing of N entries asks
//! the databases once per distinct id, and repeats its first answer.

use std::collections::HashMap;

use vstd::prelude::*;

use crate::text::{decimal, decimal_string};

verus! {

broadcast use vstd::std_specs::hash::group_hash_axioms;

/// The text shown for an owner: the name that was found, or else the id in
/// decimal.
pub open spec fn owner_text(found: Option<Seq<char>>, id: u32) -> Seq<char> {
    match found {
        Some(n) => n,
        None => decimal(id as nat),
    }
}

/// Looks up the login name of `uid` with `uzers::get_user_by_uid` (the
/// system's user database, `getpwuid_r`), converted lossily to UTF-8.
/// The answer depends on the machine's user database, so nothing is stated
/// of it.
#[verifier::external_body]
fn lookup_user(uid: u32) -> (r: Option<String>) {
    match uzers::get_user_by_uid(uid) {
        Some(u) => Some(u.name().to_string_lossy().into_owned()),
        None => None,
    }
}

/// Looks up the name of group `gid` with `uzers::get_group_by_gid` (the
/// system's group database, `getgrgid_r`), converted lossily to UTF-8.
/// The answer depends on the machine's group database, so nothing is
/// stated of it.
#[verifier::external_body]
fn lookup_group(gid: u32) -> (r: Option<String>) {
    match uzers::get_group_by_gid(gid) {
        Some(g) => Some(g.name().to_string_lossy().into_owned()),
        None => None,
    }
}

/// The name that was found, or else `id` in decimal.
pub fn name_or_id(found: Option<String>, id: u32) -> (r: String)
    ensures
        r@ == owner_text(
            match found {
                Some(n) => Some(n@),
                None => None,
            },
            id,
        ),
{
    match found {
        Some(n) => n,
        None => decimal_string(id as u64),
    }
}

/// The login name of `uid`, or `uid` in decimal when the user database has
/// no entry for it. Whether there is an entry, and which name it holds,
/// depends on the machine's user database, so no clause states the result;
/// `name_or_id` states what follows the lookup for every answer it gives.
pub fn user_name(uid: u32) -> (r: String) {
    name_or_id(lookup_user(uid), uid)
}

/// The name of group `gid`, or `gid` in decimal when the group database has
/// no entry for it. Whether there is an entry, and which name it holds,
/// depends on the machine's group database, so no clause states the result;
/// `name_or_id` states what follows the lookup for every answer it gives.
pub fn group_name(gid: u32) -> (r: String) {
    name_or_id(lookup_group(gid), gid)
}

/// What a cached lookup of `id` does to a cache `before`, leaving `after`
/// and answering `answer`: a remembered id is answered from the cache,
/// which stays as it was; a new id is answered by the database and the
/// answer is remembered.
pub open spec fn cached_lookup(
    before: Map<u32, Seq<char>>,
    after: Map<u32, Seq<char>>,
    id: u32,
    answer: Seq<char>,
) -> bool {
    if before.contains_key(id) {
        answer == before[id] && after == before
    } else {
        after == before.insert(id, answer)
    }
}

/// Names already looked up, by id.
#[derive(Debug)]
pub struct NameCache {
    users: HashMap<u32, String>,
    groups: HashMap<u32, String>,
}

impl NameCache {
    /// The remembered user names.
    pub closed spec fn users_view(&self) -> Map<u32, Seq<char>> {
        self.users@.map_values(|s: String| s@)
    }

    /// The remembered group names.
    pub closed spec fn groups_view(&self) -> Map<u32, Seq<char>> {
        self.groups@.map_values(|s: String| s@)
    }

    /// An empty cache.
    pub fn new() -> (r: Self)
        ensures
            r.users_view() == Map::<u32, Seq<char>>::empty(),
            r.groups_view() == Map::<u32, Seq<char>>::empty(),
    {
        let r = NameCache { users: HashMap::new(), groups: HashMap::new() };
        assert(r.users_view() =~= Map::<u32, Seq<char>>::empty());
        assert(r.groups_view() =~= Map::<u32, Seq<char>>::empty());
        r
    }

    /// The login name of `uid` (or `uid` in decimal), remembered.
    pub fn user_name(&mut self, uid: u32) -> (r: String)
        ensures
            cached_lookup(old(self).users_view(), final(self).users_view(), uid, r@),
            final(self).groups_view() == old(self).groups_view(),
    {
        match self.users.get(&uid) {
            Some(n) => {
                return n.clone();
            },
            None => {},
        }
        let name = user_name(uid);
        let ghost before = self.users@;
        self.users.insert(uid, name.clone());
        assert(self.users_view() =~= before.map_values(|s: String| s@).insert(uid, name@));
        name
    }

    /// The name of group `gid` (or `gid` in decimal), remembered.
    pub fn group_name(&mut self, gid: u32) -> (r: String)
        ensures
            cached_lookup(old(self).groups_view(), final(self).groups_view(), gid, r@),
            final(self).users_view() == old(self).users_view(),
    {
        match self.groups.get(&gid) {
            Some(n) => {
                return n.clone();
            },
            None => {},
        }
        let name = group_name(gid);
        let ghost before = self.groups@;
        self.groups.insert(gid, name.clone());
        assert(self.groups_view() =~= before.map_values(|s: String| s@).insert(gid, name@));
        name
    }
}

/// A cached lookup gives back the first answer: once `id` has been looked
/// up, a second lookup answers the same and leaves the cache as it was.
pub proof fn lemma_cached_lookup_repeats(
    c0: Map<u32, Seq<char>>,
    c1: Map<u32, Seq<char>>,
    c2: Map<u32, Seq<char>>,
    id: u32,
    first: Seq<char>,
    second: Seq<char>,
)
    requires
        cached_lookup(c0, c1, id, first),
        cached_lookup(c1, c2, id, second),
    ensures
        second == first,
        c2 == c1,
{
}

} // verus!

use vstd::prelude::*;

use crate::error::StoreError;
use crate::models::{user_views, viewed, Profile, ProfileEntry, ProfileWithUser, User, UserEntry, UserWithProfile};

verus! {

/// The usernames that a vector of strings holds, as character sequences.
pub open spec fn names(v: Seq<String>) -> Seq<Seq<char>> {
    v.map_values(|s: String| s@)
}

/// What the data store holds: the usernames of all users, in order of creation,
/// and the usernames of the users that have a profile.
pub struct StoreModel {
    pub users: Seq<Seq<char>>,
    pub profiles: Seq<Seq<char>>,
}

impl StoreModel {
    /// Usernames are unique among users and among profiles, and each profile
    /// belongs to an existing user.
    pub open spec fn wf(self) -> bool {
        &&& self.users.no_duplicates()
        &&& self.profiles.no_duplicates()
        &&& forall|p: Seq<char>| self.profiles.contains(p) ==> self.users.contains(p)
    }

    pub open spec fn has_user(self, u: Seq<char>) -> bool {
        self.users.contains(u)
    }

    pub open spec fn has_profile(self, u: Seq<char>) -> bool {
        self.profiles.contains(u)
    }

    /// The user `u` together with its profile.
    pub open spec fn entry(self, u: Seq<char>) -> UserEntry {
        (u, if self.has_profile(u) { Some(u) } else { None })
    }

    /// All users, each with its profile, in order of creation.
    pub open spec fn listing(self) -> Seq<UserEntry> {
        self.users.map_values(|u: Seq<char>| self.entry(u))
    }

    /// Creating user `u`: refused as a conflict when the name is taken.
    pub open spec fn create_user(self, u: Seq<char>) -> (StoreModel, Result<UserEntry, StoreError>) {
        if self.has_user(u) {
            (self, Err(StoreError::UniqueViolation))
        } else {
            (StoreModel { users: self.users.push(u), profiles: self.profiles }, Ok((u, None)))
        }
    }

    /// Renaming user `from` to `to`; its profile follows the new name.
    pub open spec fn rename_user(self, from: Seq<char>, to: Seq<char>) -> (
        StoreModel,
        Result<UserEntry, StoreError>,
    ) {
        if !self.has_user(from) {
            (self, Err(StoreError::NotFound))
        } else if from != to && self.has_user(to) {
            (self, Err(StoreError::UniqueViolation))
        } else {
            let users = self.users.update(self.users.index_of(from), to);
            let profiles = if self.has_profile(from) {
                self.profiles.update(self.profiles.index_of(from), to)
            } else {
                self.profiles
            };
            (
                StoreModel { users, profiles },
                Ok((to, if self.has_profile(from) { Some(to) } else { None })),
            )
        }
    }

    /// Deleting user `u` together with its profile.
    pub open spec fn delete_user(self, u: Seq<char>) -> (StoreModel, Result<(), StoreError>) {
        if !self.has_user(u) {
            (self, Err(StoreError::NotFound))
        } else {
            let users = self.users.remove(self.users.index_of(u));
            let profiles = if self.has_profile(u) {
                self.profiles.remove(self.profiles.index_of(u))
            } else {
                self.profiles
            };
            (StoreModel { users, profiles }, Ok(()))
        }
    }

    /// Creating the profile of user `u`: it must exist and have no profile yet.
    pub open spec fn create_profile(self, u: Seq<char>) -> (
        StoreModel,
        Result<ProfileEntry, StoreError>,
    ) {
        if !self.has_user(u) {
            (self, Err(StoreError::NotFound))
        } else if self.has_profile(u) {
            (self, Err(StoreError::UniqueViolation))
        } else {
            (StoreModel { users: self.users, profiles: self.profiles.push(u) }, Ok((u, u)))
        }
    }
}

/// An in-memory data store of users and their profiles.
pub struct Store {
    users: Vec<String>,
    profiles: Vec<String>,
}

impl View for Store {
    type V = StoreModel;

    closed spec fn view(&self) -> StoreModel {
        StoreModel { users: names(self.users@), profiles: names(self.profiles@) }
    }
}

/// Appending a new name to distinct names keeps them distinct, and keeps every old name.
pub(crate) proof fn lemma_push_keeps_distinct(s: Seq<Seq<char>>, x: Seq<char>)
    requires
        s.no_duplicates(),
        !s.contains(x),
    ensures
        s.push(x).no_duplicates(),
        forall|y: Seq<char>| s.contains(y) ==> s.push(x).contains(y),
        s.push(x).contains(x),
{
    let t = s.push(x);
    assert(t[s.len() as int] == x);
    assert forall|i: int, j: int| 0 <= i < t.len() && 0 <= j < t.len() && i != j implies t[i]
        != t[j] by {
        if i < s.len() && j < s.len() {
            assert(t[i] == s[i] && t[j] == s[j]);
        } else if i < s.len() {
            assert(t[i] == s[i]);
        } else {
            assert(t[j] == s[j]);
        }
    }
    assert forall|y: Seq<char>| s.contains(y) implies t.contains(y) by {
        let k = choose|k: int| 0 <= k < s.len() && s[k] == y;
        assert(t[k] == y);
    }
}

/// In distinct names, the index of the name at `i` is `i`.
pub(crate) proof fn lemma_index_of_distinct(s: Seq<Seq<char>>, i: int)
    requires
        s.no_duplicates(),
        0 <= i < s.len(),
    ensures
        s.index_of(s[i]) == i,
{
    assert(s[i] == s[i]);
}

/// Replacing the name at `i` by a name not used elsewhere keeps the names distinct.
pub(crate) proof fn lemma_update_keeps_distinct(s: Seq<Seq<char>>, i: int, x: Seq<char>)
    requires
        s.no_duplicates(),
        0 <= i < s.len(),
        !s.contains(x) || s[i] == x,
    ensures
        s.update(i, x).no_duplicates(),
        forall|y: Seq<char>|
            s.update(i, x).contains(y) <==> (y == x || (s.contains(y) && y != s[i])),
{
    let t = s.update(i, x);
    assert forall|a: int, b: int| 0 <= a < t.len() && 0 <= b < t.len() && a != b implies t[a]
        != t[b] by {
        if a != i && b != i {
            assert(t[a] == s[a] && t[b] == s[b]);
        } else if a == i {
            assert(t[b] == s[b]);
        } else {
            assert(t[a] == s[a]);
        }
    }
    assert forall|y: Seq<char>| t.contains(y) <==> (y == x || (s.contains(y) && y != s[i])) by {
        if t.contains(y) {
            let k = choose|k: int| 0 <= k < t.len() && t[k] == y;
            if k != i {
                assert(s[k] == y);
            }
        }
        if y == x {
            assert(t[i] == x);
        } else if s.contains(y) && y != s[i] {
            let k = choose|k: int| 0 <= k < s.len() && s[k] == y;
            assert(t[k] == y);
        }
    }
}

/// Removing the name at `i` from distinct names keeps them distinct and drops exactly that name.
pub(crate) proof fn lemma_remove_keeps_distinct(s: Seq<Seq<char>>, i: int)
    requires
        s.no_duplicates(),
        0 <= i < s.len(),
    ensures
        s.remove(i).no_duplicates(),
        forall|y: Seq<char>| s.remove(i).contains(y) <==> (s.contains(y) && y != s[i]),
{
    let t = s.remove(i);
    s.remove_ensures(i);
    assert forall|a: int, b: int| 0 <= a < t.len() && 0 <= b < t.len() && a != b implies t[a]
        != t[b] by {
        let sa = if a < i { a } else { a + 1 };
        let sb = if b < i { b } else { b + 1 };
        assert(t[a] == s[sa] && t[b] == s[sb]);
    }
    assert forall|y: Seq<char>| t.contains(y) <==> (s.contains(y) && y != s[i]) by {
        if t.contains(y) {
            let k = choose|k: int| 0 <= k < t.len() && t[k] == y;
            let sk = if k < i { k } else { k + 1 };
            assert(s[sk] == y);
        }
        if s.contains(y) && y != s[i] {
            let k = choose|k: int| 0 <= k < s.len() && s[k] == y;
            let tk = if k < i { k } else { k - 1 };
            assert(t[tk] == y);
        }
    }
}

/// Where `u` stands in `v`, if it does.
fn find(v: &Vec<String>, u: &String) -> (r: Option<usize>)
    ensures
        match r {
            Some(i) => i < v@.len() && names(v@)[i as int] == u@,
            None => !names(v@).contains(u@),
        },
{
    let mut i: usize = 0;
    while i < v.len()
        invariant
            i <= v@.len(),
            forall|j: int| 0 <= j < i ==> names(v@)[j] != u@,
        decreases v@.len() - i,
    {
        if v[i] == *u {
            return Some(i);
        }
        i = i + 1;
    }
    None
}

impl Store {
    pub open spec fn wf(&self) -> bool {
        self@.wf()
    }

    /// An empty store.
    pub fn new() -> (r: Store)
        ensures
            r.wf(),
            r@.users.len() == 0,
            r@.profiles.len() == 0,
    {
        let r = Store { users: Vec::new(), profiles: Vec::new() };
        assert(r@.users =~= Seq::<Seq<char>>::empty());
        assert(r@.profiles =~= Seq::<Seq<char>>::empty());
        r
    }

    /// All users, each with its profile, in order of creation.
    pub fn find_many_users(&self) -> (r: Vec<UserWithProfile>)
        requires
            self.wf(),
        ensures
            user_views(r@) == self@.listing(),
    {
        let mut r: Vec<UserWithProfile> = Vec::new();
        let mut i: usize = 0;
        while i < self.users.len()
            invariant
                i <= self.users@.len(),
                r@.len() == i,
                user_views(r@) == self@.listing().take(i as int),
            decreases self.users@.len() - i,
        {
            let name = self.users[i].clone();
            let profile = match find(&self.profiles, &name) {
                Some(j) => {
                    assert(self@.profiles[j as int] == name@);
                    Some(Profile { username: name.clone() })
                },
                None => None,
            };
            let ghost old_r = r@;
            let item = UserWithProfile { username: name, profile };
            assert(item@ == self@.listing()[i as int]);
            r.push(item);
            assert forall|k: int| 0 <= k < i + 1 implies #[trigger] user_views(r@)[k]
                == self@.listing().take(i + 1)[k] by {
                if k < i {
                    assert(r@[k] == old_r[k]);
                    assert(user_views(old_r)[k] == self@.listing().take(i as int)[k]);
                }
            }
            assert(user_views(r@) =~= self@.listing().take(i + 1));
            i = i + 1;
        }
        assert(self@.listing().take(i as int) =~= self@.listing());
        r
    }

    /// Creates user `username` with no profile.
    pub fn create_user(&mut self, username: String) -> (r: Result<UserWithProfile, StoreError>)
        requires
            old(self).wf(),
        ensures
            final(self).wf(),
            final(self)@ == old(self)@.create_user(username@).0,
            viewed(r) == old(self)@.create_user(username@).1,
    {
        match find(&self.users, &username) {
            Some(_) => Err(StoreError::UniqueViolation),
            None => {
                let out = UserWithProfile { username: username.clone(), profile: None };
                self.users.push(username);
                assert(self@.users =~= old(self)@.users.push(out.username@));
                proof { lemma_push_keeps_distinct(old(self)@.users, out.username@); }
                Ok(out)
            },
        }
    }
    /// Renames user `username` to `new_username`; its profile follows the new name.
    pub fn update_user(&mut self, username: &String, new_username: String) -> (r: Result<
        UserWithProfile,
        StoreError,
    >)
        requires
            old(self).wf(),
        ensures
            final(self).wf(),
            final(self)@ == old(self)@.rename_user(username@, new_username@).0,
            viewed(r) == old(self)@.rename_user(username@, new_username@).1,
    {
        let iu = match find(&self.users, username) {
            Some(iu) => iu,
            None => {
                return Err(StoreError::NotFound);
            },
        };
        if !(*username == new_username) {
            if find(&self.users, &new_username).is_some() {
                return Err(StoreError::UniqueViolation);
            }
        }
        let ghost pre = self@;
        let has_profile = find(&self.profiles, username);
        proof {
            lemma_index_of_distinct(pre.users, iu as int);
            lemma_update_keeps_distinct(pre.users, iu as int, new_username@);
        }
        self.users[iu] = new_username.clone();
        assert(self@.users =~= pre.users.update(iu as int, new_username@));
        let profile = match has_profile {
            Some(ip) => {
                assert(pre.profiles.contains(pre.profiles[ip as int]));
                proof {
                    lemma_index_of_distinct(pre.profiles, ip as int);
                    lemma_update_keeps_distinct(pre.profiles, ip as int, new_username@);
                }
                self.profiles[ip] = new_username.clone();
                assert(self@.profiles =~= pre.profiles.update(ip as int, new_username@));
                Some(Profile { username: new_username.clone() })
            },
            None => None,
        };
        assert forall|p: Seq<char>| self@.profiles.contains(p) implies self@.users.contains(p) by {
            if p != new_username@ {
                assert(pre.profiles.contains(p) && p != username@);
                assert(pre.users.contains(p));
            }
        }
        Ok(UserWithProfile { username: new_username, profile })
    }

    /// Deletes user `username` together with its profile.
    pub fn delete_user(&mut self, username: &String) -> (r: Result<(), StoreError>)
        requires
            old(self).wf(),
        ensures
            final(self).wf(),
            final(self)@ == old(self)@.delete_user(username@).0,
            r == old(self)@.delete_user(username@).1,
    {
        let iu = match find(&self.users, username) {
            Some(iu) => iu,
            None => {
                return Err(StoreError::NotFound);
            },
        };
        let ghost pre = self@;
        proof {
            lemma_index_of_distinct(pre.users, iu as int);
            lemma_remove_keeps_distinct(pre.users, iu as int);
        }
        self.users.remove(iu);
        assert(self@.users =~= pre.users.remove(iu as int)) by {
            pre.users.remove_ensures(iu as int);
        }
        match find(&self.profiles, username) {
            Some(ip) => {
                assert(pre.profiles.contains(pre.profiles[ip as int]));
                proof {
                    lemma_index_of_distinct(pre.profiles, ip as int);
                    lemma_remove_keeps_distinct(pre.profiles, ip as int);
                }
                self.profiles.remove(ip);
                assert(self@.profiles =~= pre.profiles.remove(ip as int)) by {
                    pre.profiles.remove_ensures(ip as int);
                }
            },
            None => {},
        }
        assert forall|p: Seq<char>| self@.profiles.contains(p) implies self@.users.contains(p) by {
            assert(pre.profiles.contains(p) && p != username@);
            assert(pre.users.contains(p));
        }
        Ok(())
    }

    /// Creates the profile of user `username`, which must exist and have none yet.
    pub fn create_profile(&mut self, username: String) -> (r: Result<ProfileWithUser, StoreError>)
        requires
            old(self).wf(),
        ensures
            final(self).wf(),
            final(self)@ == old(self)@.create_profile(username@).0,
            viewed(r) == old(self)@.create_profile(username@).1,
    {
        if find(&self.users, &username).is_none() {
            return Err(StoreError::NotFound);
        }
        if find(&self.profiles, &username).is_some() {
            return Err(StoreError::UniqueViolation);
        }
        let ghost pre = self@;
        let out = ProfileWithUser { username: username.clone(), user: User { username: username.clone() } };
        self.profiles.push(username);
        assert(self@.profiles =~= pre.profiles.push(out.username@));
        proof {
            lemma_push_keeps_distinct(pre.profiles, out.username@);
        }
        assert forall|p: Seq<char>| self@.profiles.contains(p) implies self@.users.contains(p) by {
            if p != out.username@ {
                let k = choose|k: int| 0 <= k < self@.profiles.len() && self@.profiles[k] == p;
                assert(pre.profiles[k] == p);
            }
        }
        Ok(out)
    }
}

} // verus!

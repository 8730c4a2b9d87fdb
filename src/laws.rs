use vstd::prelude::*;

use crate::error::{status_of, StoreError};
use crate::models::UserEntry;
use crate::store::{lemma_push_keeps_distinct, lemma_remove_keeps_distinct, StoreModel};

verus! {

/// Creating a user under an unused name, the listing that follows holds that
/// user exactly once, without a profile, after all users that were there before.
pub proof fn law_created_user_is_listed(m: StoreModel, u: Seq<char>)
    requires
        m.wf(),
        !m.has_user(u),
    ensures
        m.create_user(u).1 == Ok::<UserEntry, StoreError>((u, None)),
        m.create_user(u).0.wf(),
        m.create_user(u).0.listing() == m.listing().push((u, None::<Seq<char>>)),
        forall|i: int|
            0 <= i < m.create_user(u).0.listing().len() && #[trigger] m.create_user(
                u,
            ).0.listing()[i].0 == u ==> i == m.listing().len(),
{
    let m2 = m.create_user(u).0;
    lemma_push_keeps_distinct(m.users, u);
    assert(!m.has_profile(u));
    assert(m2.listing() =~= m.listing().push((u, None::<Seq<char>>)));
    assert forall|i: int| 0 <= i < m2.listing().len() && #[trigger] m2.listing()[i].0 == u implies i
        == m.listing().len() by {
        if i < m.listing().len() {
            assert(m.users[i] == u);
        }
    }
}

/// Creating a user under a name already in use is a conflict (409) and changes nothing.
pub proof fn law_duplicate_user_conflicts(m: StoreModel, u: Seq<char>)
    requires
        m.has_user(u),
    ensures
        m.create_user(u).0 == m,
        m.create_user(u).1 == Err::<UserEntry, StoreError>(StoreError::UniqueViolation),
        status_of(StoreError::UniqueViolation) == 409,
{
}

/// Renaming a user that does not exist is not found (404) and creates no record.
pub proof fn law_rename_missing_user_not_found(m: StoreModel, from: Seq<char>, to: Seq<char>)
    requires
        !m.has_user(from),
    ensures
        m.rename_user(from, to).0 == m,
        m.rename_user(from, to).1 == Err::<UserEntry, StoreError>(StoreError::NotFound),
        status_of(StoreError::NotFound) == 404,
        !m.rename_user(from, to).0.has_user(from),
{
}

/// Renaming a user to the name of another user is a conflict (409), and both
/// records stay as they were.
pub proof fn law_rename_onto_taken_name_conflicts(m: StoreModel, from: Seq<char>, to: Seq<char>)
    requires
        m.has_user(from),
        m.has_user(to),
        from != to,
    ensures
        m.rename_user(from, to).0 == m,
        m.rename_user(from, to).1 == Err::<UserEntry, StoreError>(StoreError::UniqueViolation),
        status_of(StoreError::UniqueViolation) == 409,
        m.rename_user(from, to).0.entry(from) == m.entry(from),
        m.rename_user(from, to).0.entry(to) == m.entry(to),
{
}

/// Deleting a user removes it from the listing, and deleting it again is not found (404).
pub proof fn law_deleted_user_is_gone(m: StoreModel, u: Seq<char>)
    requires
        m.wf(),
        m.has_user(u),
    ensures
        m.delete_user(u).1 == Ok::<(), StoreError>(()),
        m.delete_user(u).0.wf(),
        forall|i: int|
            0 <= i < m.delete_user(u).0.listing().len() ==> #[trigger] m.delete_user(
                u,
            ).0.listing()[i].0 != u,
        m.delete_user(u).0.delete_user(u).0 == m.delete_user(u).0,
        m.delete_user(u).0.delete_user(u).1 == Err::<(), StoreError>(StoreError::NotFound),
        status_of(StoreError::NotFound) == 404,
{
    let iu = m.users.index_of(u);
    assert(0 <= iu < m.users.len() && m.users[iu] == u);
    lemma_remove_keeps_distinct(m.users, iu);
    let m2 = m.delete_user(u).0;
    if m.has_profile(u) {
        let ip = m.profiles.index_of(u);
        assert(0 <= ip < m.profiles.len() && m.profiles[ip] == u);
        lemma_remove_keeps_distinct(m.profiles, ip);
    }
    assert forall|p: Seq<char>| m2.profiles.contains(p) implies m2.users.contains(p) by {
        assert(m.profiles.contains(p) && p != u);
    }
    assert forall|i: int| 0 <= i < m2.listing().len() implies #[trigger] m2.listing()[i].0 != u by {
        if m2.users[i] == u {
            assert(m2.users.contains(u));
        }
    }
}

/// Creating the profile of an existing user without one succeeds and embeds that
/// user; for a missing user it is not found (404) and no profile is stored.
pub proof fn law_profile_creation(m: StoreModel, u: Seq<char>)
    requires
        m.wf(),
    ensures
        m.has_user(u) && !m.has_profile(u) ==> {
            &&& m.create_profile(u).1 == Ok::<(Seq<char>, Seq<char>), StoreError>((u, u))
            &&& m.create_profile(u).0.wf()
            &&& m.create_profile(u).0.entry(u) == (u, Some(u))
        },
        !m.has_user(u) ==> {
            &&& m.create_profile(u).0 == m
            &&& m.create_profile(u).1 == Err::<(Seq<char>, Seq<char>), StoreError>(
                StoreError::NotFound,
            )
            &&& status_of(StoreError::NotFound) == 404
            &&& !m.create_profile(u).0.has_profile(u)
        },
{
    if m.has_user(u) && !m.has_profile(u) {
        let m2 = m.create_profile(u).0;
        lemma_push_keeps_distinct(m.profiles, u);
        assert forall|p: Seq<char>| m2.profiles.contains(p) implies m2.users.contains(p) by {
            if p != u {
                assert(m.profiles.contains(p));
            }
        }
    }
}

/// Reading the user list has no effect: two reads with no write between them
/// return the same users.
pub proof fn law_listing_is_repeatable(m: StoreModel, first: Seq<UserEntry>, second: Seq<UserEntry>)
    requires
        first == m.listing(),
        second == m.listing(),
    ensures
        first == second,
        first.to_set() == second.to_set(),
{
}

} // verus!

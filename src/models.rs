use vstd::prelude::*;

verus! {

/// Body of a request that creates or renames a user.
pub struct UserRequest {
    pub username: String,
}

/// Body of a request that creates a profile for an existing user.
pub struct ProfileRequest {
    pub username: String,
}

/// A user as embedded in a profile response.
pub struct User {
    pub username: String,
}

/// A profile as embedded in a user response.
pub struct Profile {
    pub username: String,
}

/// A user together with its profile, if it has one.
pub struct UserWithProfile {
    pub username: String,
    pub profile: Option<Profile>,
}

/// A profile together with the user it belongs to.
pub struct ProfileWithUser {
    pub username: String,
    pub user: User,
}

/// Abstract user record: its username, and the username its profile carries if present.
pub type UserEntry = (Seq<char>, Option<Seq<char>>);

/// Abstract profile record: its username and the username of the embedded user.
pub type ProfileEntry = (Seq<char>, Seq<char>);

impl View for UserWithProfile {
    type V = UserEntry;

    open spec fn view(&self) -> UserEntry {
        (
            self.username@,
            match self.profile {
                Some(p) => Some(p.username@),
                None => None,
            },
        )
    }
}

impl View for ProfileWithUser {
    type V = ProfileEntry;

    open spec fn view(&self) -> ProfileEntry {
        (self.username@, self.user.username@)
    }
}

/// The views of a sequence of users.
pub open spec fn user_views(v: Seq<UserWithProfile>) -> Seq<UserEntry> {
    v.map_values(|e: UserWithProfile| e@)
}

/// A result with its success value replaced by that value's view.
pub open spec fn viewed<T: View, E>(r: Result<T, E>) -> Result<T::V, E> {
    match r {
        Ok(v) => Ok(v@),
        Err(e) => Err(e),
    }
}

} // verus!

use vstd::prelude::*;

use crate::error::{respond, status_of, StoreError, STATUS_OK};
use crate::models::{
    user_views, viewed, ProfileRequest, ProfileWithUser, UserRequest, UserWithProfile,
};
use crate::store::Store;

verus! {

/// What a handler answers for a store outcome: the value, or the status code of the failure.
pub open spec fn answered<T>(outcome: Result<T, StoreError>) -> Result<T, u16> {
    match outcome {
        Ok(v) => Ok(v),
        Err(e) => Err(status_of(e)),
    }
}

/// `GET /user`: all users, each with its profile. Reading changes nothing.
pub fn handle_user_get(db: &Store) -> (r: Result<Vec<UserWithProfile>, u16>)
    requires
        db.wf(),
    ensures
        r is Ok,
        r matches Ok(users) && user_views(users@) == db@.listing(),
{
    Ok(db.find_many_users())
}

/// `POST /user`: creates the user named in the request.
pub fn handle_user_post(db: &mut Store, input: UserRequest) -> (r: Result<UserWithProfile, u16>)
    requires
        old(db).wf(),
    ensures
        final(db).wf(),
        final(db)@ == old(db)@.create_user(input.username@).0,
        viewed(r) == answered(old(db)@.create_user(input.username@).1),
{
    let outcome = db.create_user(input.username);
    respond(outcome)
}

/// `PUT /user/{username}`: renames user `username` to the name in the request.
pub fn handle_user_put(db: &mut Store, username: String, input: UserRequest) -> (r: Result<
    UserWithProfile,
    u16,
>)
    requires
        old(db).wf(),
    ensures
        final(db).wf(),
        final(db)@ == old(db)@.rename_user(username@, input.username@).0,
        viewed(r) == answered(old(db)@.rename_user(username@, input.username@).1),
{
    let outcome = db.update_user(&username, input.username);
    respond(outcome)
}

/// `DELETE /user/{username}`: deletes user `username`; success is answered with 200 and no body.
pub fn handle_user_delete(db: &mut Store, username: String) -> (r: Result<u16, u16>)
    requires
        old(db).wf(),
    ensures
        final(db).wf(),
        final(db)@ == old(db)@.delete_user(username@).0,
        match old(db)@.delete_user(username@).1 {
            Ok(_) => r == Ok::<u16, u16>(STATUS_OK),
            Err(e) => r == Err::<u16, u16>(status_of(e)),
        },
{
    match db.delete_user(&username) {
        Ok(()) => Ok(STATUS_OK),
        Err(e) => respond(Err(e)),
    }
}

/// `POST /profile`: creates the profile of the user named in the request.
pub fn handle_profile_post(db: &mut Store, req: ProfileRequest) -> (r: Result<ProfileWithUser, u16>)
    requires
        old(db).wf(),
    ensures
        final(db).wf(),
        final(db)@ == old(db)@.create_profile(req.username@).0,
        viewed(r) == answered(old(db)@.create_profile(req.username@).1),
{
    let outcome = db.create_profile(req.username);
    respond(outcome)
}

} // verus!

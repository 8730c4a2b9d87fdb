use axum_server::api::{
    handle_profile_post, handle_user_delete, handle_user_get, handle_user_post, handle_user_put,
};
use axum_server::error::{respond, AppError, StoreError};
use axum_server::models::{ProfileRequest, UserRequest, UserWithProfile};
use axum_server::store::Store;

fn user_req(name: &str) -> UserRequest {
    UserRequest { username: name.to_string() }
}

fn profile_req(name: &str) -> ProfileRequest {
    ProfileRequest { username: name.to_string() }
}

fn listing(db: &Store) -> Vec<(String, Option<String>)> {
    let users: Vec<UserWithProfile> = handle_user_get(db).unwrap();
    users
        .into_iter()
        .map(|u| (u.username, u.profile.map(|p| p.username)))
        .collect()
}

#[test]
fn empty_store_lists_nothing() {
    let db = Store::new();
    assert!(listing(&db).is_empty());
}

#[test]
fn created_user_is_listed_without_profile() {
    let mut db = Store::new();
    let created = handle_user_post(&mut db, user_req("alice")).unwrap();
    assert_eq!(created.username, "alice");
    assert!(created.profile.is_none());
    assert_eq!(listing(&db), vec![("alice".to_string(), None)]);
}

#[test]
fn users_are_listed_in_order_of_creation() {
    let mut db = Store::new();
    handle_user_post(&mut db, user_req("bob")).unwrap();
    handle_user_post(&mut db, user_req("alice")).unwrap();
    assert_eq!(
        listing(&db),
        vec![("bob".to_string(), None), ("alice".to_string(), None)]
    );
}

#[test]
fn duplicate_user_conflicts_and_keeps_record() {
    let mut db = Store::new();
    handle_user_post(&mut db, user_req("alice")).unwrap();
    handle_profile_post(&mut db, profile_req("alice")).unwrap();
    let before = listing(&db);
    assert_eq!(handle_user_post(&mut db, user_req("alice")).err(), Some(409));
    assert_eq!(listing(&db), before);
}

#[test]
fn empty_username_is_a_name_like_any_other() {
    let mut db = Store::new();
    handle_user_post(&mut db, user_req("")).unwrap();
    assert_eq!(handle_user_post(&mut db, user_req("")).err(), Some(409));
    assert_eq!(listing(&db), vec![(String::new(), None)]);
}

#[test]
fn rename_of_missing_user_is_not_found() {
    let mut db = Store::new();
    handle_user_post(&mut db, user_req("alice")).unwrap();
    let r = handle_user_put(&mut db, "nobody".to_string(), user_req("carol"));
    assert_eq!(r.err(), Some(404));
    assert_eq!(listing(&db), vec![("alice".to_string(), None)]);
}

#[test]
fn rename_onto_taken_name_conflicts() {
    let mut db = Store::new();
    handle_user_post(&mut db, user_req("alice")).unwrap();
    handle_user_post(&mut db, user_req("bob")).unwrap();
    let r = handle_user_put(&mut db, "alice".to_string(), user_req("bob"));
    assert_eq!(r.err(), Some(409));
    assert_eq!(
        listing(&db),
        vec![("alice".to_string(), None), ("bob".to_string(), None)]
    );
}

#[test]
fn rename_moves_user_and_profile() {
    let mut db = Store::new();
    handle_user_post(&mut db, user_req("alice")).unwrap();
    handle_profile_post(&mut db, profile_req("alice")).unwrap();
    let renamed = handle_user_put(&mut db, "alice".to_string(), user_req("carol")).unwrap();
    assert_eq!(renamed.username, "carol");
    assert_eq!(renamed.profile.map(|p| p.username), Some("carol".to_string()));
    assert_eq!(
        listing(&db),
        vec![("carol".to_string(), Some("carol".to_string()))]
    );
    assert_eq!(handle_user_post(&mut db, user_req("alice")).err(), None);
}

#[test]
fn rename_to_same_name_succeeds() {
    let mut db = Store::new();
    handle_user_post(&mut db, user_req("alice")).unwrap();
    let renamed = handle_user_put(&mut db, "alice".to_string(), user_req("alice")).unwrap();
    assert_eq!(renamed.username, "alice");
    assert_eq!(listing(&db), vec![("alice".to_string(), None)]);
}

#[test]
fn deleted_user_is_gone_and_second_delete_is_not_found() {
    let mut db = Store::new();
    handle_user_post(&mut db, user_req("alice")).unwrap();
    handle_user_post(&mut db, user_req("bob")).unwrap();
    assert_eq!(handle_user_delete(&mut db, "alice".to_string()), Ok(200));
    assert_eq!(listing(&db), vec![("bob".to_string(), None)]);
    assert_eq!(handle_user_delete(&mut db, "alice".to_string()), Err(404));
    assert_eq!(listing(&db), vec![("bob".to_string(), None)]);
}

#[test]
fn delete_removes_the_profile_too() {
    let mut db = Store::new();
    handle_user_post(&mut db, user_req("alice")).unwrap();
    handle_profile_post(&mut db, profile_req("alice")).unwrap();
    assert_eq!(handle_user_delete(&mut db, "alice".to_string()), Ok(200));
    handle_user_post(&mut db, user_req("alice")).unwrap();
    assert_eq!(listing(&db), vec![("alice".to_string(), None)]);
}

#[test]
fn profile_for_existing_user_embeds_user() {
    let mut db = Store::new();
    handle_user_post(&mut db, user_req("alice")).unwrap();
    let profile = handle_profile_post(&mut db, profile_req("alice")).unwrap();
    assert_eq!(profile.username, "alice");
    assert_eq!(profile.user.username, "alice");
    assert_eq!(
        listing(&db),
        vec![("alice".to_string(), Some("alice".to_string()))]
    );
}

#[test]
fn profile_for_missing_user_is_not_found_and_not_stored() {
    let mut db = Store::new();
    handle_user_post(&mut db, user_req("alice")).unwrap();
    assert_eq!(handle_profile_post(&mut db, profile_req("bob")).err(), Some(404));
    assert_eq!(listing(&db), vec![("alice".to_string(), None)]);
    handle_user_post(&mut db, user_req("bob")).unwrap();
    assert_eq!(
        listing(&db),
        vec![("alice".to_string(), None), ("bob".to_string(), None)]
    );
}

#[test]
fn second_profile_conflicts() {
    let mut db = Store::new();
    handle_user_post(&mut db, user_req("alice")).unwrap();
    handle_profile_post(&mut db, profile_req("alice")).unwrap();
    assert_eq!(handle_profile_post(&mut db, profile_req("alice")).err(), Some(409));
}

#[test]
fn listing_twice_gives_the_same_users() {
    let mut db = Store::new();
    handle_user_post(&mut db, user_req("alice")).unwrap();
    handle_user_post(&mut db, user_req("bob")).unwrap();
    handle_profile_post(&mut db, profile_req("bob")).unwrap();
    let first = listing(&db);
    let second = listing(&db);
    assert_eq!(first, second);
    assert_eq!(
        first,
        vec![("alice".to_string(), None), ("bob".to_string(), Some("bob".to_string()))]
    );
}

#[test]
fn each_store_error_has_its_status() {
    assert_eq!(AppError::from(StoreError::UniqueViolation).into_response(), 409);
    assert_eq!(AppError::from(StoreError::NotFound).into_response(), 404);
    assert_eq!(AppError::from(StoreError::Other).into_response(), 400);
}

#[test]
fn respond_passes_values_and_maps_errors() {
    assert_eq!(respond::<u8>(Ok(7)), Ok(7));
    assert_eq!(respond::<u8>(Err(StoreError::UniqueViolation)), Err(409));
    assert_eq!(respond::<u8>(Err(StoreError::NotFound)), Err(404));
    assert_eq!(respond::<u8>(Err(StoreError::Other)), Err(400));
}

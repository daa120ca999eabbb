use link_hub::queries::{
    attach_preview, check_user_exists, complete_registration, create_link, create_unverified_user,
    delete_link as remove_link, get_all_links, get_link_by_id, increment_click_count,
    is_user_verified, update_link, StoreError,
};
use link_hub::routes::{
    apply_enrichment, authorize, create_link_at, delete_link, get_link_by_id_handler, get_links,
    handle_create_link, track_click, update_link_at, update_link_handler, Access, LinkError,
};
use link_hub::{LinkPreview, LinkStore, UserRow, UserStatus};

const U: u128 = 11;
const V: u128 = 22;

fn s(t: &str) -> String {
    t.to_string()
}

fn store_with_users() -> LinkStore {
    let mut store = LinkStore::new();
    store.users.push(UserRow {
        id: U,
        email: s("u@example.com"),
        username: s("ursula"),
        password_hash: s("h1"),
        is_verified: true,
        status: UserStatus::Active,
        verified_at: Some(50),
    });
    store.users.push(UserRow {
        id: V,
        email: s("v@example.com"),
        username: s("victor"),
        password_hash: s("h2"),
        is_verified: false,
        status: UserStatus::Pending,
        verified_at: None,
    });
    store
}

fn preview_titled(t: &str) -> LinkPreview {
    LinkPreview { title: Some(s(t)), description: None, image: None }
}

fn example_link(store: &mut LinkStore, id: u128, now: i64) {
    create_link_at(store, U, id, s("https://example.com"), s("Example"), s("d"), now).unwrap();
}

#[test]
fn create_returns_record_without_preview() {
    let mut store = store_with_users();
    let link = create_link_at(&mut store, U, 1, s("https://example.com"), s("Example"), s("d"), 100)
        .unwrap();
    assert_eq!(link.id, 1);
    assert_eq!(link.click_count, 0);
    assert!(link.preview.is_none());
    assert_eq!(link.user_id, U);
    assert_eq!(link.user.unwrap().username, "ursula");
    assert_eq!(link.created_at, 100);
    assert_eq!(link.updated_at, 100);
    assert_eq!(link.url, "https://example.com");
    assert_eq!(link.title, "Example");
    assert_eq!(link.description, "d");
}

#[test]
fn scenario_enrichment_success_shows_preview() {
    let mut store = store_with_users();
    example_link(&mut store, 7, 100);
    apply_enrichment(&mut store, 7, Some(preview_titled("Example Domain")));
    let link = get_link_by_id_handler(&store, 7).unwrap();
    assert_eq!(link.preview.unwrap().title.unwrap(), "Example Domain");
    assert_eq!(link.updated_at, 100);
    assert_eq!(link.created_at, 100);
    assert_eq!(link.click_count, 0);
}

#[test]
fn failed_enrichment_leaves_preview_absent() {
    let mut store = store_with_users();
    example_link(&mut store, 7, 100);
    apply_enrichment(&mut store, 7, None);
    track_click(&mut store, 7);
    update_link_at(&mut store, U, 7, s("https://a.org"), s("A"), s("x"), 200).unwrap();
    assert!(get_link_by_id_handler(&store, 7).unwrap().preview.is_none());
}

#[test]
fn enrichment_after_delete_is_a_no_op() {
    let mut store = store_with_users();
    example_link(&mut store, 7, 100);
    delete_link(&mut store, U, 7).unwrap();
    apply_enrichment(&mut store, 7, Some(preview_titled("late")));
    assert!(get_all_links(&store).is_empty());
}

#[test]
fn scenario_other_user_is_forbidden() {
    let mut store = store_with_users();
    example_link(&mut store, 7, 100);
    let r = update_link_at(&mut store, V, 7, s("https://evil.com"), s("X"), s("y"), 200);
    assert_eq!(r.unwrap_err(), LinkError::Forbidden);
    assert_eq!(delete_link(&mut store, V, 7), Err(LinkError::Forbidden));
    let link = get_link_by_id_handler(&store, 7).unwrap();
    assert_eq!(link.url, "https://example.com");
    assert_eq!(link.title, "Example");
    assert_eq!(link.description, "d");
    assert_eq!(link.updated_at, 100);
}

#[test]
fn update_missing_link_is_not_found() {
    let mut store = store_with_users();
    let r = update_link_at(&mut store, U, 99, s("https://a.org"), s("A"), s("x"), 200);
    assert_eq!(r.unwrap_err(), LinkError::NotFound);
    assert_eq!(delete_link(&mut store, U, 99), Err(LinkError::NotFound));
    assert_eq!(get_link_by_id_handler(&store, 99).unwrap_err(), LinkError::NotFound);
}

#[test]
fn owner_update_changes_text_and_time_only() {
    let mut store = store_with_users();
    example_link(&mut store, 7, 100);
    track_click(&mut store, 7);
    apply_enrichment(&mut store, 7, Some(preview_titled("P")));
    let link = update_link_at(&mut store, U, 7, s("https://a.org"), s("A"), s("x"), 250).unwrap();
    assert_eq!(link.url, "https://a.org");
    assert_eq!(link.title, "A");
    assert_eq!(link.description, "x");
    assert_eq!(link.updated_at, 250);
    assert_eq!(link.created_at, 100);
    assert_eq!(link.click_count, 1);
    assert_eq!(link.preview.unwrap().title.unwrap(), "P");
}

#[test]
fn update_handler_stamps_current_time() {
    let mut store = store_with_users();
    example_link(&mut store, 7, 100);
    let link = update_link_handler(&mut store, U, 7, s("https://a.org"), s("A"), s("x")).unwrap();
    assert!(link.updated_at > 100);
    assert_eq!(link.title, "A");
}

#[test]
fn clicks_add_up() {
    let mut store = store_with_users();
    example_link(&mut store, 7, 100);
    for _ in 0..5 {
        track_click(&mut store, 7);
    }
    let link = get_link_by_id(&store, 7).unwrap();
    assert_eq!(link.click_count, 5);
    assert_eq!(link.updated_at, 100);
}

#[test]
fn click_on_missing_link_is_silent() {
    let mut store = store_with_users();
    example_link(&mut store, 7, 100);
    increment_click_count(&mut store, 8);
    track_click(&mut store, 8);
    assert_eq!(get_link_by_id(&store, 7).unwrap().click_count, 0);
    assert_eq!(get_all_links(&store).len(), 1);
}

#[test]
fn click_count_stays_at_largest_value() {
    let mut store = store_with_users();
    example_link(&mut store, 7, 100);
    store.links[0].click_count = u64::MAX;
    increment_click_count(&mut store, 7);
    assert_eq!(get_link_by_id(&store, 7).unwrap().click_count, u64::MAX);
}

#[test]
fn store_delete_is_idempotent() {
    let mut store = store_with_users();
    example_link(&mut store, 7, 100);
    example_link(&mut store, 8, 110);
    remove_link(&mut store, 7);
    remove_link(&mut store, 7);
    remove_link(&mut store, 99);
    assert!(get_link_by_id(&store, 7).is_none());
    let all = get_all_links(&store);
    assert_eq!(all.len(), 1);
    assert_eq!(all[0].id, 8);
}

#[test]
fn owner_delete_removes_link() {
    let mut store = store_with_users();
    example_link(&mut store, 7, 100);
    assert_eq!(delete_link(&mut store, U, 7), Ok(()));
    assert!(get_link_by_id(&store, 7).is_none());
}

#[test]
fn listing_is_newest_first() {
    let mut store = store_with_users();
    example_link(&mut store, 1, 100);
    example_link(&mut store, 2, 300);
    example_link(&mut store, 3, 200);
    example_link(&mut store, 4, 300);
    let ids: Vec<u128> = get_links(&store).iter().map(|l| l.id).collect();
    assert_eq!(ids, vec![4, 2, 3, 1]);
}

#[test]
fn later_creation_listed_first_on_equal_times() {
    let mut store = store_with_users();
    example_link(&mut store, 1, 100);
    example_link(&mut store, 2, 100);
    let ids: Vec<u128> = get_all_links(&store).iter().map(|l| l.id).collect();
    assert_eq!(ids, vec![2, 1]);
}

#[test]
fn empty_store_lists_nothing() {
    let store = LinkStore::new();
    assert!(get_links(&store).is_empty());
    assert!(get_link_by_id(&store, 1).is_none());
}

#[test]
fn duplicate_id_is_a_storage_error() {
    let mut store = store_with_users();
    example_link(&mut store, 7, 100);
    let r = create_link(&mut store, 7, s("https://b.org"), s("B"), s("e"), V, None, 200);
    assert_eq!(r.unwrap_err(), StoreError::DuplicateId);
    let r = create_link_at(&mut store, V, 7, s("https://b.org"), s("B"), s("e"), 200);
    assert_eq!(r.unwrap_err(), LinkError::Storage);
    assert_eq!(get_all_links(&store).len(), 1);
    assert_eq!(get_link_by_id(&store, 7).unwrap().title, "Example");
}

#[test]
fn owner_summary_absent_for_unknown_user() {
    let mut store = LinkStore::new();
    let link = create_link(&mut store, 1, s("https://a.org"), s("A"), s("x"), 5, None, 10).unwrap();
    assert!(link.user.is_none());
}

#[test]
fn store_update_missing_is_none() {
    let mut store = store_with_users();
    assert!(update_link(&mut store, 3, s("u"), s("t"), s("d"), 10).is_none());
}

#[test]
fn attach_preview_keeps_updated_at() {
    let mut store = store_with_users();
    example_link(&mut store, 7, 100);
    attach_preview(&mut store, 7, preview_titled("T"));
    let link = get_link_by_id(&store, 7).unwrap();
    assert_eq!(link.updated_at, 100);
    assert_eq!(link.preview.unwrap().title.unwrap(), "T");
}

#[test]
fn handle_create_link_uses_fresh_ids_and_current_time() {
    let mut store = store_with_users();
    let a = handle_create_link(&mut store, U, s("https://a.org"), s("A"), s("x")).unwrap();
    let b = handle_create_link(&mut store, U, s("https://b.org"), s("B"), s("y")).unwrap();
    assert_ne!(a.id, b.id);
    assert_ne!(a.id, 0);
    assert!(a.created_at > 0);
    assert_eq!(a.created_at, a.updated_at);
    assert!(a.preview.is_none());
    assert_eq!(get_links(&store)[0].id, b.id);
}

#[test]
fn guard_is_identity_equality() {
    assert_eq!(authorize(U, U), Access::Allowed);
    assert_eq!(authorize(V, U), Access::Forbidden);
}

#[test]
fn error_status_codes() {
    assert_eq!(LinkError::Validation.status_code(), 422);
    assert_eq!(LinkError::NotFound.status_code(), 404);
    assert_eq!(LinkError::Forbidden.status_code(), 403);
    assert_eq!(LinkError::Storage.status_code(), 500);
}

#[test]
fn user_exists_by_email_or_name() {
    let store = store_with_users();
    assert!(check_user_exists(&store, &s("u@example.com"), &s("")));
    assert!(check_user_exists(&store, &s("new@example.com"), &s("victor")));
    assert!(!check_user_exists(&store, &s("new@example.com"), &s("")));
    assert!(!check_user_exists(&store, &s("new@example.com"), &s("nobody")));
}

#[test]
fn registration_flow() {
    let mut store = store_with_users();
    assert_eq!(create_unverified_user(&mut store, 33, s("w@example.com"), s("wanda"), s("h3")), Ok(()));
    assert_eq!(
        create_unverified_user(&mut store, 33, s("x@example.com"), s("xavier"), s("h4")),
        Err(StoreError::DuplicateId)
    );
    assert!(!is_user_verified(&store, &s("w@example.com")));
    assert_eq!(store.users[2].status, UserStatus::Pending);
    assert_eq!(store.users[2].verified_at, None);
    assert_eq!(complete_registration(&mut store, &s("w@example.com"), 900), Ok(()));
    assert!(is_user_verified(&store, &s("w@example.com")));
    assert_eq!(store.users[2].status, UserStatus::Active);
    assert_eq!(store.users[2].verified_at, Some(900));
    assert_eq!(store.users[1].status, UserStatus::Pending);
    assert_eq!(complete_registration(&mut store, &s("w@example.com"), 950), Err(StoreError::RowNotFound));
    assert_eq!(store.users[2].verified_at, Some(900));
    assert_eq!(complete_registration(&mut store, &s("none@example.com"), 950), Err(StoreError::RowNotFound));
    assert!(!is_user_verified(&store, &s("none@example.com")));
    assert!(is_user_verified(&store, &s("u@example.com")));
}

#[test]
fn scenario_create_on_fresh_store() {
    let mut store = store_with_users();
    let link = handle_create_link(&mut store, U, s("https://example.com"), s("Example"), s("d")).unwrap();
    assert_eq!(link.click_count, 0);
    assert!(link.preview.is_none());
    assert_eq!(link.user_id, U);
    assert_eq!(link.url, "https://example.com");
    assert_eq!(link.title, "Example");
    assert_eq!(link.description, "d");
    assert_eq!(get_link_by_id_handler(&store, link.id).unwrap().created_at, link.created_at);
}

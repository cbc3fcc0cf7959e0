use golink::reply::{Reply, ReplyBody};
use golink::service::{
    create_golink, delete_golink, get_all_golinks, get_golink, path_key, update_golink,
    CreateGolink, ListQuery, UpdateGolink,
};
use golink::storage::HashMapStorage;

fn create_app() -> HashMapStorage {
    HashMapStorage::new()
}

fn list(storage: &HashMapStorage) -> Reply {
    get_all_golinks(ListQuery { page: None, page_size: None }, storage)
}

fn error_text(reply: &Reply) -> String {
    match &reply.body {
        ReplyBody::Failure(error) => error.message(),
        other => panic!("expected an error, got {:?}", other),
    }
}

fn listed(reply: &Reply) -> usize {
    match &reply.body {
        ReplyBody::Links(links) => links.len(),
        other => panic!("expected a listing, got {:?}", other),
    }
}

#[test]
fn test_create_golink_api() {
    let mut app = create_app();

    let create_req = CreateGolink {
        short_link: "go/test".to_string(),
        url: "https://example.com".to_string(),
    };

    let resp = create_golink(create_req, &mut app);

    assert_eq!(resp.status, 201);

    match resp.body {
        ReplyBody::Link(body) => {
            assert_eq!(body.short_link, "go/test");
            assert_eq!(body.url, "https://example.com");
            assert!(!body.id.is_empty());
            assert!(!body.created_at.is_empty());
        }
        other => panic!("expected a link, got {:?}", other),
    }
}

#[test]
fn test_create_invalid_golink_pattern() {
    let mut app = create_app();

    let create_req = CreateGolink {
        short_link: "invalid".to_string(),
        url: "https://example.com".to_string(),
    };

    let resp = create_golink(create_req, &mut app);

    assert_eq!(resp.status, 400);
    assert!(error_text(&resp).contains("Invalid golink pattern"));
}

#[test]
fn test_get_all_golinks_empty() {
    let app = create_app();

    let resp = list(&app);

    assert_eq!(resp.status, 200);
    assert!(matches!(resp.body, ReplyBody::Links(_)));
    assert_eq!(listed(&resp), 0);
}

#[test]
fn integration_tests_test_create_and_get_golink() {
    let mut app = create_app();

    let create_req = CreateGolink {
        short_link: "go/test".to_string(),
        url: "https://example.com".to_string(),
    };

    let create_resp = create_golink(create_req, &mut app);
    assert_eq!(create_resp.status, 201);

    let get_resp = get_golink(path_key("go", "test"), &app);
    assert_eq!(get_resp.status, 200);

    match get_resp.body {
        ReplyBody::Link(body) => {
            assert_eq!(body.short_link, "go/test");
            assert_eq!(body.url, "https://example.com");
        }
        other => panic!("expected a link, got {:?}", other),
    }
}

#[test]
fn test_get_nonexistent_golink() {
    let mut app = create_app();

    let create_req = CreateGolink {
        short_link: "go/random".to_string(),
        url: "https://random.com".to_string(),
    };

    let create_resp = create_golink(create_req, &mut app);
    assert_eq!(create_resp.status, 201);

    let resp = get_golink(path_key("go", "nonexistent"), &app);

    assert_eq!(resp.status, 404);
    assert!(error_text(&resp).contains("not found"));
}

#[test]
fn test_create_duplicate_golink() {
    let mut app = create_app();

    let resp1 = create_golink(
        CreateGolink { short_link: "go/test".to_string(), url: "https://example.com".to_string() },
        &mut app,
    );
    assert_eq!(resp1.status, 201);

    let resp2 = create_golink(
        CreateGolink { short_link: "go/test".to_string(), url: "https://example.com".to_string() },
        &mut app,
    );
    assert_eq!(resp2.status, 409);
    assert!(error_text(&resp2).contains("already exists"));
}

#[test]
fn integration_tests_test_update_golink() {
    let mut app = create_app();

    let create_req = CreateGolink {
        short_link: "go/test".to_string(),
        url: "https://example.com".to_string(),
    };

    let create_resp = create_golink(create_req, &mut app);
    assert_eq!(create_resp.status, 201);

    let update_req = UpdateGolink { url: "https://updated.com".to_string() };

    let update_resp = update_golink(path_key("go", "test"), update_req, &mut app);
    assert_eq!(update_resp.status, 200);

    match update_resp.body {
        ReplyBody::Link(body) => assert_eq!(body.url, "https://updated.com"),
        other => panic!("expected a link, got {:?}", other),
    }
}

#[test]
fn test_update_nonexistent_golink() {
    let mut app = create_app();

    let update_req = UpdateGolink { url: "https://updated.com".to_string() };

    let resp = update_golink(path_key("go", "nonexistent"), update_req, &mut app);

    assert_eq!(resp.status, 404);
    assert!(error_text(&resp).contains("not found"));
}

#[test]
fn integration_tests_test_delete_golink() {
    let mut app = create_app();

    let create_req = CreateGolink {
        short_link: "go/test".to_string(),
        url: "https://example.com".to_string(),
    };

    let create_resp = create_golink(create_req, &mut app);
    assert_eq!(create_resp.status, 201);

    let delete_resp = delete_golink(path_key("go", "test"), &mut app);
    assert_eq!(delete_resp.status, 200);

    match delete_resp.body {
        ReplyBody::Message(text) => assert!(text.contains("deleted successfully")),
        other => panic!("expected a confirmation, got {:?}", other),
    }
}

#[test]
fn test_delete_nonexistent_golink() {
    let mut app = create_app();

    let resp = delete_golink(path_key("go", "nonexistent"), &mut app);

    assert_eq!(resp.status, 404);
    assert!(error_text(&resp).contains("not found"));
}

#[test]
fn test_full_crud_workflow() {
    let mut app = create_app();

    // 1. Start with empty list
    let list_resp = list(&app);
    assert_eq!(list_resp.status, 200);
    assert_eq!(listed(&list_resp), 0);

    // 2. Create a golink
    let create_req = CreateGolink {
        short_link: "go/example".to_string(),
        url: "https://example.com".to_string(),
    };
    let create_resp = create_golink(create_req, &mut app);
    assert_eq!(create_resp.status, 201);

    // 3. Verify it appears in list
    let list_resp = list(&app);
    assert_eq!(list_resp.status, 200);
    assert_eq!(listed(&list_resp), 1);

    // 4. Update the golink
    let update_req = UpdateGolink { url: "https://updated-example.com".to_string() };
    let update_resp = update_golink(path_key("go", "example"), update_req, &mut app);
    assert_eq!(update_resp.status, 200);

    // 5. Delete the golink
    let delete_resp = delete_golink(path_key("go", "example"), &mut app);
    assert_eq!(delete_resp.status, 200);

    // 6. Verify it's gone from list
    let list_resp = list(&app);
    assert_eq!(list_resp.status, 200);
    assert_eq!(listed(&list_resp), 0);
}

use golink::service::Golink;
use golink::storage::{GoStorage, HashMapStorage, StorageError};

fn create_test_golink(short_link: &str, url: &str) -> Golink {
    Golink {
        id: format!("id-of-{}", short_link),
        short_link: short_link.to_string(),
        url: url.to_string(),
        created_at: "2024-05-01T12:00:00+00:00".to_string(),
    }
}

fn link_at(short_link: &str, created_at: &str) -> Golink {
    Golink {
        id: format!("id-of-{}", short_link),
        short_link: short_link.to_string(),
        url: format!("https://example.com/{}", short_link),
        created_at: created_at.to_string(),
    }
}

fn keys(links: &[Golink]) -> Vec<String> {
    links.iter().map(|g| g.short_link.clone()).collect()
}

#[test]
fn storage_test_create_and_get_golink() {
    let mut storage = HashMapStorage::new();
    let golink = create_test_golink("go/test", "https://example.com");

    let result = storage.create(golink.clone());
    assert!(result.is_ok());

    let retrieved = storage.get(&golink.short_link);
    assert!(retrieved.is_ok());
    let retrieved_golink = retrieved.unwrap();
    assert_eq!(retrieved_golink.short_link, golink.short_link);
    assert_eq!(retrieved_golink.url, golink.url);
}

#[test]
fn storage_test_create_duplicate_returns_error() {
    let mut storage = HashMapStorage::new();
    let golink = create_test_golink("go/test", "https://example.com");

    let result1 = storage.create(golink.clone());
    assert!(result1.is_ok());

    let result2 = storage.create(golink.clone());
    assert!(matches!(result2, Err(StorageError::AlreadyExists)));
}

#[test]
fn storage_test_get_nonexistent_returns_not_found() {
    let storage = HashMapStorage::new();
    let result = storage.get("go/nonexistent");
    assert!(matches!(result, Err(StorageError::NotFound)));
}

#[test]
fn storage_test_get_all_golinks() {
    let mut storage = HashMapStorage::new();
    let golink1 = create_test_golink("go/test1", "https://example1.com");
    let golink2 = create_test_golink("go/test2", "https://example2.com");

    storage.create(golink1.clone()).unwrap();
    storage.create(golink2.clone()).unwrap();

    let all_golinks = storage.get_all().unwrap();
    assert_eq!(all_golinks.len(), 2);
}

#[test]
fn storage_test_update_golink() {
    let mut storage = HashMapStorage::new();
    let golink = create_test_golink("go/test", "https://example.com");

    storage.create(golink.clone()).unwrap();

    let updated = storage.update(&golink.short_link, "https://updated.com".to_string());
    assert!(updated.is_ok());
    let updated_golink = updated.unwrap();
    assert_eq!(updated_golink.url, "https://updated.com");
}

#[test]
fn storage_test_update_nonexistent_returns_not_found() {
    let mut storage = HashMapStorage::new();
    let result = storage.update("go/nonexistent", "https://example.com".to_string());
    assert!(matches!(result, Err(StorageError::NotFound)));
}

#[test]
fn storage_test_delete_golink() {
    let mut storage = HashMapStorage::new();
    let golink = create_test_golink("go/test", "https://example.com");

    storage.create(golink.clone()).unwrap();

    let result = storage.delete(&golink.short_link);
    assert!(result.is_ok());

    let get_result = storage.get(&golink.short_link);
    assert!(matches!(get_result, Err(StorageError::NotFound)));
}

#[test]
fn storage_test_delete_nonexistent_returns_not_found() {
    let mut storage = HashMapStorage::new();
    let result = storage.delete("go/nonexistent");
    assert!(matches!(result, Err(StorageError::NotFound)));
}

#[test]
fn storage_test_exists() {
    let mut storage = HashMapStorage::new();
    let golink = create_test_golink("go/test", "https://example.com");

    let exists_before = storage.link_exists(&golink.short_link).unwrap();
    assert!(!exists_before);

    storage.create(golink.clone()).unwrap();
    let exists_after = storage.link_exists(&golink.short_link).unwrap();
    assert!(exists_after);
}

#[test]
fn new_store_is_empty() {
    let storage = HashMapStorage::new();
    assert_eq!(storage.get_all().unwrap().len(), 0);
    let (page, total) = storage.get_paginated(1, 10).unwrap();
    assert!(page.is_empty());
    assert_eq!(total, 0);
}

#[test]
fn duplicate_create_keeps_the_first_url() {
    let mut storage = HashMapStorage::new();
    storage.create(create_test_golink("go/test", "https://first.example")).unwrap();
    let second = storage.create(create_test_golink("go/test", "https://second.example"));
    assert!(matches!(second, Err(StorageError::AlreadyExists)));
    assert_eq!(storage.get("go/test").unwrap().url, "https://first.example");
    assert_eq!(storage.get_all().unwrap().len(), 1);
}

#[test]
fn get_returns_every_field_and_is_stable() {
    let mut storage = HashMapStorage::new();
    let golink = Golink {
        id: "7b0f3a52-6c1e-4d0b-9a83-2f5e1c9d4b6a".to_string(),
        short_link: "go/docs".to_string(),
        url: "https://docs.example".to_string(),
        created_at: "2024-05-01T12:00:00.123456789+00:00".to_string(),
    };
    storage.create(golink.clone()).unwrap();
    for _ in 0..3 {
        let read = storage.get("go/docs").unwrap();
        assert_eq!(read.id, golink.id);
        assert_eq!(read.short_link, golink.short_link);
        assert_eq!(read.url, golink.url);
        assert_eq!(read.created_at, golink.created_at);
    }
}

#[test]
fn update_changes_the_url_and_nothing_else() {
    let mut storage = HashMapStorage::new();
    storage.create(link_at("go/a", "2024-01-01T00:00:00+00:00")).unwrap();
    storage.create(link_at("go/b", "2024-01-02T00:00:00+00:00")).unwrap();
    let before = storage.get("go/a").unwrap();

    let updated = storage.update("go/a", "https://new.example".to_string()).unwrap();
    assert_eq!(updated.url, "https://new.example");
    assert_eq!(updated.id, before.id);
    assert_eq!(updated.short_link, before.short_link);
    assert_eq!(updated.created_at, before.created_at);

    let read = storage.get("go/a").unwrap();
    assert_eq!(read.url, "https://new.example");
    assert_eq!(read.id, before.id);
    assert_eq!(read.created_at, before.created_at);

    let other = storage.get("go/b").unwrap();
    assert_eq!(other.url, "https://example.com/go/b");
    assert_eq!(keys(&storage.get_all().unwrap()), vec!["go/b", "go/a"]);
}

#[test]
fn update_of_an_absent_key_creates_nothing() {
    let mut storage = HashMapStorage::new();
    storage.create(link_at("go/a", "2024-01-01T00:00:00+00:00")).unwrap();
    let result = storage.update("go/missing", "https://new.example".to_string());
    assert!(matches!(result, Err(StorageError::NotFound)));
    assert_eq!(keys(&storage.get_all().unwrap()), vec!["go/a"]);
    assert!(!storage.link_exists("go/missing").unwrap());
}

#[test]
fn delete_removes_one_link_only() {
    let mut storage = HashMapStorage::new();
    storage.create(link_at("go/a", "2024-01-01T00:00:00+00:00")).unwrap();
    storage.create(link_at("go/b", "2024-01-02T00:00:00+00:00")).unwrap();
    storage.create(link_at("go/c", "2024-01-03T00:00:00+00:00")).unwrap();

    assert!(storage.delete("go/b").is_ok());
    assert!(matches!(storage.get("go/b"), Err(StorageError::NotFound)));
    assert!(!storage.link_exists("go/b").unwrap());
    assert_eq!(keys(&storage.get_all().unwrap()), vec!["go/c", "go/a"]);
}

#[test]
fn delete_of_an_absent_key_changes_nothing() {
    let mut storage = HashMapStorage::new();
    storage.create(link_at("go/a", "2024-01-01T00:00:00+00:00")).unwrap();
    assert!(matches!(storage.delete("go/missing"), Err(StorageError::NotFound)));
    assert_eq!(keys(&storage.get_all().unwrap()), vec!["go/a"]);
    assert!(matches!(storage.delete("go/a"), Ok(())));
    assert!(matches!(storage.delete("go/a"), Err(StorageError::NotFound)));
}

#[test]
fn a_deleted_key_can_be_created_again() {
    let mut storage = HashMapStorage::new();
    storage.create(create_test_golink("go/test", "https://first.example")).unwrap();
    storage.delete("go/test").unwrap();
    storage.create(create_test_golink("go/test", "https://second.example")).unwrap();
    assert_eq!(storage.get("go/test").unwrap().url, "https://second.example");
}

#[test]
fn listing_is_newest_first_whatever_the_order_of_creation() {
    let mut storage = HashMapStorage::new();
    storage.create(link_at("go/middle", "2024-03-01T00:00:00+00:00")).unwrap();
    storage.create(link_at("go/oldest", "2023-12-31T23:59:59+00:00")).unwrap();
    storage.create(link_at("go/newest", "2024-03-01T00:00:00.000000001+00:00")).unwrap();
    storage.create(link_at("go/old", "2024-01-15T08:30:00+00:00")).unwrap();
    assert_eq!(
        keys(&storage.get_all().unwrap()),
        vec!["go/newest", "go/middle", "go/old", "go/oldest"]
    );
}

#[test]
fn links_with_equal_timestamps_list_latest_created_first() {
    let mut storage = HashMapStorage::new();
    storage.create(link_at("go/a", "2024-01-01T00:00:00+00:00")).unwrap();
    storage.create(link_at("go/b", "2024-01-01T00:00:00+00:00")).unwrap();
    storage.create(link_at("go/c", "2024-01-01T00:00:00+00:00")).unwrap();
    assert_eq!(keys(&storage.get_all().unwrap()), vec!["go/c", "go/b", "go/a"]);
}

#[test]
fn keys_are_compared_exactly() {
    let mut storage = HashMapStorage::new();
    storage.create(create_test_golink("go/test", "https://example.com")).unwrap();
    assert!(!storage.link_exists("go/tes").unwrap());
    assert!(!storage.link_exists("go/test1").unwrap());
    assert!(!storage.link_exists("go/Test").unwrap());
    assert!(!storage.link_exists("").unwrap());
    assert!(storage.create(create_test_golink("go/test1", "https://example.com")).is_ok());
    assert!(storage.create(create_test_golink("go/Test", "https://example.com")).is_ok());
}

#[test]
fn pagination_example_of_three_links() {
    let mut storage = HashMapStorage::new();
    storage.create(link_at("go/a", "2024-01-01T00:00:00+00:00")).unwrap();
    storage.create(link_at("go/b", "2024-01-02T00:00:00+00:00")).unwrap();
    storage.create(link_at("go/c", "2024-01-03T00:00:00+00:00")).unwrap();

    let (first, total) = storage.get_paginated(1, 2).unwrap();
    assert_eq!(keys(&first), vec!["go/c", "go/b"]);
    assert_eq!(total, 3);

    let (second, total) = storage.get_paginated(2, 2).unwrap();
    assert_eq!(keys(&second), vec!["go/a"]);
    assert_eq!(total, 3);

    let (third, total) = storage.get_paginated(3, 2).unwrap();
    assert!(third.is_empty());
    assert_eq!(total, 3);
}

#[test]
fn page_and_page_size_are_clamped_by_the_store() {
    let mut storage = HashMapStorage::new();
    for i in 0..150 {
        storage.create(link_at(&format!("go/k{:03}", i), &format!("2024-01-01T00:00:00.{:03}+00:00", i))).unwrap();
    }
    // Page 0 is page 1.
    let (page, total) = storage.get_paginated(0, 2).unwrap();
    assert_eq!(keys(&page), vec!["go/k149", "go/k148"]);
    assert_eq!(total, 150);
    // Page size 0 is page size 1.
    let (page, _) = storage.get_paginated(2, 0).unwrap();
    assert_eq!(keys(&page), vec!["go/k148"]);
    // A page size over 100 is 100.
    let (page, _) = storage.get_paginated(1, 1000).unwrap();
    assert_eq!(page.len(), 100);
    assert_eq!(page[0].short_link, "go/k149");
    assert_eq!(page[99].short_link, "go/k050");
    let (page, _) = storage.get_paginated(2, usize::MAX).unwrap();
    assert_eq!(page.len(), 50);
    assert_eq!(page[0].short_link, "go/k049");
    // An offset that does not fit the machine word lies behind the end.
    let (page, total) = storage.get_paginated(usize::MAX, 100).unwrap();
    assert!(page.is_empty());
    assert_eq!(total, 150);
}

#[test]
fn pages_join_to_the_listing() {
    for n in [0usize, 1, 2, 3, 7, 10, 11, 50, 99, 100, 101, 200, 250] {
        let mut storage = HashMapStorage::new();
        for i in 0..n {
            storage
                .create(link_at(&format!("go/k{:03}", i), &format!("2024-01-01T00:00:00.{:03}+00:00", (i * 7) % 251)))
                .unwrap();
        }
        let all = keys(&storage.get_all().unwrap());
        assert_eq!(all.len(), n);
        for page_size in 1..=100usize {
            let pages = (n + page_size - 1) / page_size;
            let mut joined: Vec<String> = Vec::new();
            for page in 1..=pages {
                let (items, total) = storage.get_paginated(page, page_size).unwrap();
                assert_eq!(total, n);
                assert!(!items.is_empty());
                assert!(items.len() <= page_size);
                joined.extend(keys(&items));
            }
            assert_eq!(joined, all);
            let (beyond, total) = storage.get_paginated(pages + 1, page_size).unwrap();
            assert!(beyond.is_empty());
            assert_eq!(total, n);
        }
    }
}

#[test]
fn creates_with_distinct_keys_all_succeed() {
    let n = 300;
    let mut storage = HashMapStorage::new();
    // Arrival order is not key order.
    for i in 0..n {
        let k = (i * 7919) % n;
        let result = storage.create(link_at(&format!("go/k{}", k), "2024-01-01T00:00:00+00:00"));
        assert!(result.is_ok());
    }
    assert_eq!(storage.get_all().unwrap().len(), n);
    for k in 0..n {
        assert!(storage.link_exists(&format!("go/k{}", k)).unwrap());
    }
}

#[test]
fn the_store_holds_links_whose_alias_was_never_checked() {
    // The alias grammar is the service's rule; the store takes any key.
    let mut storage = HashMapStorage::new();
    assert!(storage.create(create_test_golink("not an alias", "https://example.com")).is_ok());
    assert!(storage.create(create_test_golink("", "https://example.com")).is_ok());
    assert!(storage.create(create_test_golink("gö/ünï", "https://example.com")).is_ok());
    assert_eq!(storage.get("gö/ünï").unwrap().short_link, "gö/ünï");
    assert!(matches!(
        storage.create(create_test_golink("", "https://other.example")),
        Err(StorageError::AlreadyExists)
    ));
}

use golink::durable::{
    change_outcome, count_outcome, database_url, insert_outcome, is_database_url, page_outcome, page_query,
    presence_outcome, row_outcome, rows_outcome, EngineFault,
};
use golink::service::Golink;
use golink::storage::StorageError;

fn fault(detail: &str) -> EngineFault {
    EngineFault { unique_violation: false, detail: detail.to_string() }
}

fn duplicate(detail: &str) -> EngineFault {
    EngineFault { unique_violation: true, detail: detail.to_string() }
}

fn row(short_link: &str) -> Golink {
    Golink {
        id: format!("id-of-{}", short_link),
        short_link: short_link.to_string(),
        url: "https://example.com".to_string(),
        created_at: "2024-05-01T12:00:00+00:00".to_string(),
    }
}

fn detail_of<T: std::fmt::Debug>(result: Result<T, StorageError>) -> String {
    match result {
        Err(StorageError::DatabaseError(detail)) => detail,
        other => panic!("expected a backend fault, got {:?}", other),
    }
}

#[test]
fn database_locations() {
    assert!(is_database_url("sqlite://golinks.db"));
    assert!(is_database_url("sqlite:///var/lib/golinks.db?mode=rwc"));
    assert!(is_database_url("sqlite://"));
    assert!(!is_database_url("golinks.db"));
    assert!(!is_database_url("/var/lib/golinks.db"));
    assert!(!is_database_url("sqlite:/golinks.db"));
    assert!(!is_database_url("SQLITE://golinks.db"));
    assert!(!is_database_url(""));

    assert_eq!(database_url("/var/lib/golinks.db"), "sqlite:///var/lib/golinks.db");
    assert_eq!(database_url(""), "sqlite://");
    assert!(is_database_url(&database_url("/data/ü.db")));
}

#[test]
fn limit_and_offset_of_a_page() {
    assert_eq!(page_query(1, 10), (10, 0));
    assert_eq!(page_query(2, 10), (10, 10));
    assert_eq!(page_query(3, 2), (2, 4));
    assert_eq!(page_query(0, 10), (10, 0));
    assert_eq!(page_query(5, 0), (1, 4));
    assert_eq!(page_query(2, 1000), (100, 100));
    assert_eq!(page_query(usize::MAX, 100), (100, i64::MAX));
    assert_eq!(page_query(usize::MAX, 1), (1, if usize::MAX as u128 - 1 > i64::MAX as u128 { i64::MAX } else { (usize::MAX - 1) as i64 }));
    assert_eq!(page_query(1_000_001, 100), (100, 100_000_000));
}

#[test]
fn insert_outcomes() {
    assert!(matches!(insert_outcome(Ok(1)), Ok(())));
    assert!(matches!(insert_outcome(Ok(0)), Ok(())));
    assert!(matches!(
        insert_outcome(Err(duplicate("UNIQUE constraint failed: golinks.short_link"))),
        Err(StorageError::AlreadyExists)
    ));
    assert_eq!(detail_of(insert_outcome(Err(fault("database is locked")))), "database is locked");
}

#[test]
fn change_outcomes() {
    assert!(matches!(change_outcome(Ok(1)), Ok(())));
    assert!(matches!(change_outcome(Ok(2)), Ok(())));
    assert!(matches!(change_outcome(Ok(0)), Err(StorageError::NotFound)));
    assert_eq!(detail_of(change_outcome(Err(fault("disk full")))), "disk full");
    // Only an insert can be a duplicate.
    assert_eq!(detail_of(change_outcome(Err(duplicate("constraint")))), "constraint");
}

#[test]
fn row_outcomes() {
    assert_eq!(row_outcome(Ok(Some(row("go/test")))).unwrap().short_link, "go/test");
    assert!(matches!(row_outcome(Ok(None)), Err(StorageError::NotFound)));
    assert_eq!(detail_of(row_outcome(Err(fault("no such table: golinks")))), "no such table: golinks");
}

#[test]
fn rows_outcomes() {
    let rows = rows_outcome(Ok(vec![row("go/b"), row("go/a")])).unwrap();
    assert_eq!(rows.len(), 2);
    assert_eq!(rows[0].short_link, "go/b");
    assert_eq!(rows[1].short_link, "go/a");
    assert!(rows_outcome(Ok(Vec::new())).unwrap().is_empty());
    assert_eq!(detail_of(rows_outcome(Err(fault("pool timed out")))), "pool timed out");
}

#[test]
fn presence_outcomes() {
    assert_eq!(presence_outcome(Ok(1)).unwrap(), true);
    assert_eq!(presence_outcome(Ok(2)).unwrap(), true);
    assert_eq!(presence_outcome(Ok(0)).unwrap(), false);
    assert_eq!(presence_outcome(Ok(-1)).unwrap(), false);
    assert_eq!(detail_of(presence_outcome(Err(fault("pool closed")))), "pool closed");
}

#[test]
fn count_outcomes() {
    assert_eq!(count_outcome(Ok(0)).unwrap(), 0);
    assert_eq!(count_outcome(Ok(3)).unwrap(), 3);
    assert_eq!(count_outcome(Ok(-4)).unwrap(), 0);
    assert_eq!(detail_of(count_outcome(Err(fault("count failed")))), "count failed");
}

#[test]
fn page_outcomes() {
    let (rows, total) = page_outcome(3, Ok(vec![row("go/a")])).unwrap();
    assert_eq!(rows.len(), 1);
    assert_eq!(rows[0].short_link, "go/a");
    assert_eq!(total, 3);

    // The two reads are independent: the total need not match the slice.
    let (rows, total) = page_outcome(0, Ok(vec![row("go/a")])).unwrap();
    assert_eq!(rows.len(), 1);
    assert_eq!(total, 0);

    assert_eq!(detail_of(page_outcome(3, Err(fault("rows failed")))), "rows failed");
}

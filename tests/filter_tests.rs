use ets_lib::{filter_tables, EtsTableInfo, Error, NamePattern, Protection, TableType};

fn make_table(name: &str) -> EtsTableInfo {
    EtsTableInfo {
        name: name.to_string(),
        table_type: TableType::UnorderedSet,
        size: 0,
        memory_bytes: 0,
        owner: "<0.0.0>".to_string(),
        protection: Protection::Public,
    }
}

#[test]
fn test_filter_with_no_pattern_returns_all() {
    let tables = vec![
        make_table("rabbit_queue"),
        make_table("ra_log"),
        make_table("mnesia_schema"),
    ];

    let result = filter_tables(tables, None);
    assert_eq!(result.len(), 3);
}

#[test]
fn test_filter_with_prefix_pattern() {
    let tables = vec![
        make_table("rabbit_queue"),
        make_table("rabbit_exchange"),
        make_table("ra_log"),
        make_table("mnesia_schema"),
    ];

    let pattern = NamePattern::new("^rabbit_").unwrap();
    let result = filter_tables(tables, Some(&pattern));

    assert_eq!(result.len(), 2);
    assert!(result.iter().all(|t| t.name.starts_with("rabbit_")));
}

#[test]
fn test_filter_with_suffix_pattern() {
    let tables = vec![
        make_table("rabbit_queue"),
        make_table("message_queue"),
        make_table("ra_log"),
    ];

    let pattern = NamePattern::new("_queue$").unwrap();
    let result = filter_tables(tables, Some(&pattern));

    assert_eq!(result.len(), 2);
    assert!(result.iter().all(|t| t.name.ends_with("_queue")));
}

#[test]
fn test_filter_with_contains_pattern() {
    let tables = vec![
        make_table("rabbit_queue"),
        make_table("ra_log_wal"),
        make_table("mnesia_schema"),
    ];

    let pattern = NamePattern::new("log").unwrap();
    let result = filter_tables(tables, Some(&pattern));

    assert_eq!(result.len(), 1);
    assert_eq!(result[0].name, "ra_log_wal");
}

#[test]
fn test_filter_with_no_matches_returns_empty() {
    let tables = vec![make_table("rabbit_queue"), make_table("ra_log")];

    let pattern = NamePattern::new("^nonexistent").unwrap();
    let result = filter_tables(tables, Some(&pattern));

    assert!(result.is_empty());
}

#[test]
fn test_filter_empty_input_returns_empty() {
    let tables: Vec<EtsTableInfo> = vec![];

    let pattern = NamePattern::new(".*").unwrap();
    let result = filter_tables(tables, Some(&pattern));

    assert!(result.is_empty());
}

#[test]
fn test_filter_with_case_sensitive_pattern() {
    let tables = vec![make_table("Rabbit_Queue"), make_table("rabbit_queue")];

    let pattern = NamePattern::new("^rabbit").unwrap();
    let result = filter_tables(tables, Some(&pattern));

    assert_eq!(result.len(), 1);
    assert_eq!(result[0].name, "rabbit_queue");
}

#[test]
fn test_filter_with_case_insensitive_pattern() {
    let tables = vec![make_table("Rabbit_Queue"), make_table("rabbit_queue")];

    let pattern = NamePattern::new("(?i)^rabbit").unwrap();
    let result = filter_tables(tables, Some(&pattern));

    assert_eq!(result.len(), 2);
}

#[test]
fn filter_keeps_order_of_matches() {
    let tables = vec![make_table("b_x"), make_table("a"), make_table("a_x"), make_table("c_x")];
    let pattern = NamePattern::new("_x$").unwrap();
    let names: Vec<String> = filter_tables(tables, Some(&pattern)).into_iter().map(|t| t.name).collect();
    assert_eq!(names, vec!["b_x", "a_x", "c_x"]);
}

#[test]
fn invalid_pattern_is_rejected() {
    match NamePattern::new("[invalid(regex") {
        Err(Error::InvalidPattern(m)) => assert!(!m.is_empty()),
        other => panic!("unexpected: {:?}", other.map(|p| p.as_str().to_string())),
    }
}

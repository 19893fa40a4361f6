use ets_lib::{
    format_memory, generate_local_node_name, local_node_name, AppState, EtsTableInfo, Error, Pid,
    Protection, Reference, ServerError, TableContentsResponse, TableType, TablesListResponse, Term,
};

#[test]
fn negative_memory_is_plain_bytes() {
    assert_eq!(format_memory(-5), "-5 bytes");
    assert_eq!(format_memory(i64::MIN), "-9223372036854775808 bytes");
}

#[test]
fn memory_uses_binary_units() {
    assert_eq!(format_memory(1024), "1 KiB");
    assert_eq!(format_memory(0), "0 B");
}

#[test]
fn node_name_has_prefix_suffix_and_host() {
    assert_eq!(local_node_name(12345, Some("myhost")), "ets_browser_12345@myhost");
    assert_eq!(local_node_name(10000, None), "ets_browser_10000@localhost");
}

#[test]
fn generated_node_name_has_five_digit_suffix() {
    let name = generate_local_node_name();
    let rest = name.strip_prefix("ets_browser_").unwrap();
    let (digits, host) = rest.split_once('@').unwrap();
    let n: u32 = digits.parse().unwrap();
    assert!((10000..99999).contains(&n));
    assert!(!host.contains('@'));
}

#[test]
fn terms_render_as_the_codec_prints_them() {
    let pid = Term::Pid(Pid { node: "n@h".to_string(), id: 0, serial: 123, creation: 0 });
    assert_eq!(pid.render(), "<0.123.0>");
    let r = Term::Reference(Reference { node: "n@h".to_string(), creation: 1, ids: vec![1, 2, 3] });
    assert_eq!(r.render(), "#Ref<[1, 2, 3]>");
    let list = Term::List(vec![Term::Integer(-1), Term::Str("x".to_string()), Term::Nil]);
    assert_eq!(list.render(), "[-1, \"x\", []]");
    let map = Term::MapOf(vec![(Term::Atom("a".to_string()), Term::Tuple(vec![]))]);
    assert_eq!(map.render(), "#{a => {}}");
}

fn table(name: &str) -> EtsTableInfo {
    EtsTableInfo {
        name: name.to_string(),
        table_type: TableType::DuplicateBag,
        size: 1,
        memory_bytes: 8,
        owner: "<0.1.0>".to_string(),
        protection: Protection::Public,
    }
}

#[test]
fn app_state_keeps_node_and_cookie() {
    let state = AppState::new("rabbit@localhost".to_string(), "secret".to_string());
    assert_eq!(state.node, "rabbit@localhost");
    assert_eq!(state.cookie, "secret");
}

#[test]
fn list_response_counts_tables() {
    let r = TablesListResponse::new(vec![table("a"), table("b")]);
    assert_eq!(r.total, 2);
    assert_eq!(r.tables[1].name, "b");
}

#[test]
fn contents_response_numbers_entries_from_one() {
    let entries = vec![Term::Atom("x".to_string()), Term::Integer(7)];
    let r = TableContentsResponse::new("t".to_string(), entries);
    assert_eq!(r.table_name, "t");
    assert_eq!(r.total, 2);
    assert_eq!((r.entries[0].index, r.entries[0].entry.as_str()), (1, "x"));
    assert_eq!((r.entries[1].index, r.entries[1].entry.as_str()), (2, "7"));
}

#[test]
fn server_errors_map_to_statuses() {
    let (status, msg) = ServerError::Ets(Error::TableNotFound("t".to_string())).status_and_message();
    assert_eq!((status, msg.as_str()), (404, "Table not found: t"));
    let (status, msg) = ServerError::Ets(Error::CookieNotFound("no cookie".to_string())).status_and_message();
    assert_eq!((status, msg.as_str()), (401, "no cookie"));
    let (status, msg) = ServerError::Ets(Error::UnexpectedResponse("x".to_string())).status_and_message();
    assert_eq!((status, msg.as_str()), (500, "Unexpected response format: x"));
}

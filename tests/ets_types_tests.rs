use ets_lib::{parse_table_info, Error, Protection, TableType, Term};

fn atom(s: &str) -> Term {
    Term::Atom(s.to_string())
}

fn pair(k: &str, v: Term) -> Term {
    Term::Tuple(vec![atom(k), v])
}

#[test]
fn test_table_type_deserialization_from_atoms() {
    let term = atom("set");
    let table_type = TableType::decode(&term).unwrap();
    assert_eq!(table_type, TableType::UnorderedSet);

    let term = atom("ordered_set");
    let table_type = TableType::decode(&term).unwrap();
    assert_eq!(table_type, TableType::OrderedSet);

    let term = atom("bag");
    let table_type = TableType::decode(&term).unwrap();
    assert_eq!(table_type, TableType::Bag);

    let term = atom("duplicate_bag");
    let table_type = TableType::decode(&term).unwrap();
    assert_eq!(table_type, TableType::DuplicateBag);
}

#[test]
fn test_protection_deserialization_from_atoms() {
    let term = atom("public");
    let protection = Protection::decode(&term).unwrap();
    assert_eq!(protection, Protection::Public);

    let term = atom("protected");
    let protection = Protection::decode(&term).unwrap();
    assert_eq!(protection, Protection::Protected);

    let term = atom("private");
    let protection = Protection::decode(&term).unwrap();
    assert_eq!(protection, Protection::Private);
}

#[test]
fn test_table_type_display() {
    assert_eq!(TableType::UnorderedSet.to_string(), "set");
    assert_eq!(TableType::OrderedSet.to_string(), "ordered_set");
    assert_eq!(TableType::Bag.to_string(), "bag");
    assert_eq!(TableType::DuplicateBag.to_string(), "duplicate_bag");
}

#[test]
fn test_protection_display() {
    assert_eq!(Protection::Public.to_string(), "public");
    assert_eq!(Protection::Protected.to_string(), "protected");
    assert_eq!(Protection::Private.to_string(), "private");
}

#[test]
fn test_ets_table_info_from_map() {
    let term = Term::MapOf(vec![
        (atom("name"), atom("test_table")),
        (atom("type"), atom("set")),
        (atom("size"), Term::Integer(100)),
        (atom("memory"), Term::Integer(1024)),
        (atom("protection"), atom("public")),
        (atom("owner"), Term::Str("<0.123.0>".to_string())),
    ]);

    let info = parse_table_info(&term, 1).unwrap();

    assert_eq!(info.name, "test_table");
    assert_eq!(info.table_type, TableType::UnorderedSet);
    assert_eq!(info.size, 100);
    assert_eq!(info.memory_bytes, 1024);
    assert_eq!(info.protection, Protection::Public);
}

#[test]
fn test_table_type_deserialization_rejects_invalid_atom() {
    let term = atom("invalid_type");
    let result = TableType::decode(&term);
    assert!(result.is_err());
}

#[test]
fn test_protection_deserialization_rejects_invalid_atom() {
    let term = atom("invalid_protection");
    let result = Protection::decode(&term);
    assert!(result.is_err());
}

#[test]
fn test_table_type_deserialization_rejects_non_atom() {
    let term = Term::Integer(42);
    let result = TableType::decode(&term);
    assert!(result.is_err());
}

#[test]
fn test_protection_deserialization_rejects_non_atom() {
    let term = Term::Integer(42);
    let result = Protection::decode(&term);
    assert!(result.is_err());
}

#[test]
fn decode_rejection_is_a_deserialization_error() {
    assert!(matches!(TableType::decode(&atom("public")), Err(Error::Deserialization(_))));
    assert!(matches!(Protection::decode(&atom("set")), Err(Error::Deserialization(_))));
    assert!(matches!(Protection::decode(&Term::Str("public".to_string())), Err(Error::Deserialization(_))));
}

fn info_proplist(name: &str, memory: i64) -> Term {
    Term::List(vec![
        pair("id", Term::Other("#Ref<0.1.2.3>".to_string())),
        pair("memory", Term::Integer(memory)),
        pair(
            "owner",
            Term::Pid(ets_lib::Pid { node: "rabbit@host".to_string(), id: 0, serial: 123, creation: 0 }),
        ),
        pair("name", atom(name)),
        pair("size", Term::Integer(500)),
        pair("type", atom("ordered_set")),
        pair("protection", atom("protected")),
    ])
}

#[test]
fn memory_is_scaled_by_word_size() {
    let info = parse_table_info(&info_proplist("t", 1024), 8).unwrap();
    assert_eq!(info.memory_bytes, 8192);
    let info = parse_table_info(&info_proplist("t", 1024), 4).unwrap();
    assert_eq!(info.memory_bytes, 4096);
    let info = parse_table_info(&info_proplist("t", 0), 8).unwrap();
    assert_eq!(info.memory_bytes, 0);
}

#[test]
fn proplist_info_decodes_every_field() {
    let info = parse_table_info(&info_proplist("my_table", 10), 8).unwrap();
    assert_eq!(info.name, "my_table");
    assert_eq!(info.table_type, TableType::OrderedSet);
    assert_eq!(info.size, 500);
    assert_eq!(info.owner, "<0.123.0>");
    assert_eq!(info.protection, Protection::Protected);
}

#[test]
fn absent_owner_is_unknown() {
    let term = Term::List(vec![
        pair("name", atom("t")),
        pair("type", atom("bag")),
        pair("size", Term::Integer(1)),
        pair("memory", Term::Integer(2)),
        pair("protection", atom("private")),
    ]);
    let info = parse_table_info(&term, 8).unwrap();
    assert_eq!(info.owner, "unknown");
}

#[test]
fn negative_or_overflowing_counts_are_decode_errors() {
    assert!(matches!(parse_table_info(&info_proplist("t", -1), 8), Err(Error::Deserialization(_))));
    assert!(matches!(parse_table_info(&info_proplist("t", i64::MAX), 8), Err(Error::Deserialization(_))));
}

#[test]
fn missing_field_is_a_decode_error() {
    let term = Term::List(vec![pair("name", atom("t"))]);
    assert!(matches!(parse_table_info(&term, 8), Err(Error::Deserialization(_))));
}

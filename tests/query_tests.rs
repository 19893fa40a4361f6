use ets_lib::{
    decode_word_size, list_tables_from_replies, sort_by_memory_desc, total_memory_bytes, Error,
    EtsTableInfo, Protection, Reference, Step, TableDumper, TableLister, TableType, Term,
};

fn atom(s: &str) -> Term {
    Term::Atom(s.to_string())
}

fn rex(payload: Term) -> Term {
    Term::Tuple(vec![atom("rex"), payload])
}

fn table_ref(id: u32) -> Term {
    Term::Reference(Reference { node: "rabbit@host".to_string(), creation: 1, ids: vec![id, 0, 0] })
}

fn info(name: &str, memory: i64) -> Term {
    let pair = |k: &str, v: Term| Term::Tuple(vec![atom(k), v]);
    Term::List(vec![
        pair("name", atom(name)),
        pair("type", atom("set")),
        pair("size", Term::Integer(3)),
        pair("memory", Term::Integer(memory)),
        pair("protection", atom("public")),
    ])
}

fn names(tables: &[EtsTableInfo]) -> Vec<String> {
    tables.iter().map(|t| t.name.clone()).collect()
}

fn abc_replies(b_vanished: bool) -> Vec<Term> {
    vec![
        rex(Term::Integer(8)),
        rex(Term::List(vec![table_ref(1), table_ref(2), table_ref(3)])),
        rex(info("c_table", 10)),
        if b_vanished { rex(atom("undefined")) } else { rex(info("b_table", 20)) },
        rex(info("a_table", 30)),
    ]
}

#[test]
fn lister_asks_for_word_size_then_tables_then_each_info() {
    let (mut lister, first) = TableLister::start();
    assert_eq!(first.module, "erlang");
    assert_eq!(first.function, "system_info");
    assert!(matches!(&first.args[..], [Term::Atom(a)] if a == "wordsize"));

    match lister.on_reply(rex(Term::Integer(8))) {
        Step::Call(c) => {
            assert_eq!((c.module.as_str(), c.function.as_str()), ("ets", "all"));
            assert!(c.args.is_empty());
        }
        _ => panic!("expected a call"),
    }
    match lister.on_reply(rex(Term::List(vec![table_ref(7)]))) {
        Step::Call(c) => {
            assert_eq!((c.module.as_str(), c.function.as_str()), ("ets", "info"));
            assert!(matches!(&c.args[..], [Term::Reference(r)] if r.ids == vec![7, 0, 0]));
        }
        _ => panic!("expected a call"),
    }
    match lister.on_reply(rex(info("only", 2))) {
        Step::Done(Ok(tables)) => {
            assert_eq!(names(&tables), vec!["only"]);
            assert_eq!(tables[0].memory_bytes, 16);
        }
        _ => panic!("expected the result"),
    }
}

#[test]
fn listing_is_sorted_by_name() {
    let tables = list_tables_from_replies(abc_replies(false)).unwrap().unwrap();
    assert_eq!(names(&tables), vec!["a_table", "b_table", "c_table"]);
    assert_eq!(tables[0].memory_bytes, 240);
}

#[test]
fn vanished_table_is_skipped_without_error() {
    let tables = list_tables_from_replies(abc_replies(true)).unwrap().unwrap();
    assert_eq!(names(&tables), vec!["a_table", "c_table"]);
}

#[test]
fn listing_twice_gives_the_same_result() {
    let first = list_tables_from_replies(abc_replies(false)).unwrap().unwrap();
    let second = list_tables_from_replies(abc_replies(false)).unwrap().unwrap();
    assert_eq!(names(&first), names(&second));
    for (a, b) in first.iter().zip(second.iter()) {
        assert_eq!(a.memory_bytes, b.memory_bytes);
        assert_eq!(a.size, b.size);
        assert_eq!(a.owner, b.owner);
        assert_eq!(a.table_type, b.table_type);
        assert_eq!(a.protection, b.protection);
    }
}

#[test]
fn empty_table_list_is_no_error() {
    let replies = vec![rex(Term::Integer(8)), rex(Term::Nil)];
    let tables = list_tables_from_replies(replies).unwrap().unwrap();
    assert!(tables.is_empty());
}

#[test]
fn malformed_info_fails_the_whole_listing() {
    let mut replies = abc_replies(false);
    replies[3] = rex(Term::Integer(5));
    assert!(matches!(list_tables_from_replies(replies), Some(Err(Error::Deserialization(_)))));
}

#[test]
fn too_few_replies_give_no_result() {
    let mut replies = abc_replies(false);
    replies.pop();
    assert!(list_tables_from_replies(replies).is_none());
}

#[test]
fn word_size_must_be_a_positive_integer() {
    assert_eq!(decode_word_size(&Term::Integer(8)).unwrap(), 8);
    match decode_word_size(&Term::Integer(0)) {
        Err(Error::UnexpectedResponse(m)) => {
            assert_eq!(m, "Expected positive integer for wordsize, got: 0")
        }
        other => panic!("unexpected: {:?}", other),
    }
    match decode_word_size(&atom("badrpc")) {
        Err(Error::UnexpectedResponse(m)) => {
            assert_eq!(m, "Expected positive integer for wordsize, got: badrpc")
        }
        other => panic!("unexpected: {:?}", other),
    }
    let replies = vec![rex(Term::Integer(-8))];
    assert!(matches!(list_tables_from_replies(replies), Some(Err(Error::UnexpectedResponse(_)))));
}

#[test]
fn reply_without_rex_envelope_is_unexpected() {
    let (mut lister, _) = TableLister::start();
    match lister.on_reply(Term::Tuple(vec![atom("badrpc"), Term::Integer(8)])) {
        Step::Done(Err(Error::UnexpectedResponse(m))) => {
            assert_eq!(m, "Expected a {rex, Result} reply, got: {badrpc, 8}")
        }
        _ => panic!("expected an error"),
    }
}

#[test]
fn table_list_that_is_no_list_is_a_conversion_error() {
    let replies = vec![rex(Term::Integer(8)), rex(atom("oops"))];
    match list_tables_from_replies(replies) {
        Some(Err(Error::TermConversion(m))) => assert_eq!(m, "Expected a list, got: oops"),
        other => panic!("unexpected: {:?}", other.map(|r| r.map(|t| t.len()))),
    }
}

#[test]
fn dump_of_missing_table_is_table_not_found() {
    let (mut dumper, first) = TableDumper::start("nope");
    assert_eq!((first.module.as_str(), first.function.as_str()), ("ets", "info"));
    assert!(matches!(&first.args[..], [Term::Atom(a)] if a == "nope"));
    match dumper.on_reply(rex(atom("undefined"))) {
        Step::Done(Err(Error::TableNotFound(name))) => assert_eq!(name, "nope"),
        _ => panic!("expected TableNotFound"),
    }
}

#[test]
fn dump_returns_entries_in_order() {
    let (mut dumper, _) = TableDumper::start("ac_tab");
    match dumper.on_reply(rex(info("ac_tab", 1))) {
        Step::Call(c) => {
            assert_eq!((c.module.as_str(), c.function.as_str()), ("ets", "tab2list"));
            assert!(matches!(&c.args[..], [Term::Atom(a)] if a == "ac_tab"));
        }
        _ => panic!("expected a call"),
    }
    let entries = Term::List(vec![
        Term::Tuple(vec![atom("k1"), Term::Integer(1)]),
        Term::Tuple(vec![atom("k2"), Term::Integer(2)]),
    ]);
    match dumper.on_reply(rex(entries)) {
        Step::Done(Ok(v)) => {
            let texts: Vec<String> = v.iter().map(|t| t.render()).collect();
            assert_eq!(texts, vec!["{k1, 1}", "{k2, 2}"]);
        }
        _ => panic!("expected the entries"),
    }
}

#[test]
fn dump_of_empty_table_is_empty() {
    let (mut dumper, _) = TableDumper::start("t");
    assert!(matches!(dumper.on_reply(rex(info("t", 1))), Step::Call(_)));
    assert!(matches!(dumper.on_reply(rex(Term::Nil)), Step::Done(Ok(v)) if v.is_empty()));
}

fn table(name: &str, memory_bytes: u64) -> EtsTableInfo {
    EtsTableInfo {
        name: name.to_string(),
        table_type: TableType::Bag,
        size: 0,
        memory_bytes,
        owner: "unknown".to_string(),
        protection: Protection::Private,
    }
}

#[test]
fn memory_breakdown_order_is_largest_first_and_stable() {
    let tables = vec![table("a", 10), table("b", 30), table("c", 10), table("d", 20)];
    let sorted = sort_by_memory_desc(tables);
    assert_eq!(names(&sorted), vec!["b", "d", "a", "c"]);
}

#[test]
fn name_sort_keeps_equal_names_in_order() {
    let tables = vec![table("b", 1), table("a", 2), table("b", 3), table("B", 4)];
    let sorted = ets_lib::sort_by_name(tables);
    assert_eq!(names(&sorted), vec!["B", "a", "b", "b"]);
    assert_eq!(sorted[2].memory_bytes, 1);
    assert_eq!(sorted[3].memory_bytes, 3);
}

#[test]
fn total_memory_adds_every_table() {
    let tables = vec![table("a", u64::MAX), table("b", 1)];
    assert_eq!(total_memory_bytes(&tables), u64::MAX as u128 + 1);
    assert_eq!(total_memory_bytes(&vec![]), 0);
}

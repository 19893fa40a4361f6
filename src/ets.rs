use crate::errors::Error;
use crate::term::{atom_is, field_value, proplist_get, rendering, write_term, Term};
use vstd::prelude::*;
use vstd::string::*;

verus! {

/// The kind of a table, decoded only from its exact atom.
#[derive(Debug, Clone, Copy, PartialEq, Eq, Structural)]
pub enum TableType {
    UnorderedSet,
    OrderedSet,
    Bag,
    DuplicateBag,
}

/// Who may access a table, decoded only from its exact atom.
#[derive(Debug, Clone, Copy, PartialEq, Eq, Structural)]
pub enum Protection {
    Public,
    Protected,
    Private,
}

/// One table of the remote node, as the inspector reports it.
#[derive(Debug, Clone)]
pub struct EtsTableInfo {
    /// The table's name.
    pub name: String,
    pub table_type: TableType,
    /// The number of objects in the table.
    pub size: u64,
    /// The memory the table takes, in bytes.
    pub memory_bytes: u64,
    /// The rendering of the owner process, or `unknown`.
    pub owner: String,
    pub protection: Protection,
}

/// What a table record states, with its texts as character sequences.
pub struct TableInfoView {
    pub name: Seq<char>,
    pub table_type: TableType,
    pub size: u64,
    pub memory_bytes: u64,
    pub owner: Seq<char>,
    pub protection: Protection,
}

impl View for EtsTableInfo {
    type V = TableInfoView;

    open spec fn view(&self) -> TableInfoView {
        TableInfoView {
            name: self.name@,
            table_type: self.table_type,
            size: self.size,
            memory_bytes: self.memory_bytes,
            owner: self.owner@,
            protection: self.protection,
        }
    }
}

/// The table type that an atom stands for.
pub open spec fn table_type_of(t: Term) -> Option<TableType> {
    if atom_is(t, "set"@) {
        Some(TableType::UnorderedSet)
    } else if atom_is(t, "ordered_set"@) {
        Some(TableType::OrderedSet)
    } else if atom_is(t, "bag"@) {
        Some(TableType::Bag)
    } else if atom_is(t, "duplicate_bag"@) {
        Some(TableType::DuplicateBag)
    } else {
        None
    }
}

/// The protection that an atom stands for.
pub open spec fn protection_of(t: Term) -> Option<Protection> {
    if atom_is(t, "public"@) {
        Some(Protection::Public)
    } else if atom_is(t, "protected"@) {
        Some(Protection::Protected)
    } else if atom_is(t, "private"@) {
        Some(Protection::Private)
    } else {
        None
    }
}

impl TableType {
    /// The atom that names this table type.
    pub open spec fn tag(self) -> Seq<char> {
        match self {
            TableType::UnorderedSet => "set"@,
            TableType::OrderedSet => "ordered_set"@,
            TableType::Bag => "bag"@,
            TableType::DuplicateBag => "duplicate_bag"@,
        }
    }

    /// The name of this table type.
    pub fn as_str(&self) -> (r: &'static str)
        ensures
            r@ == self.tag(),
    {
        match self {
            TableType::UnorderedSet => "set",
            TableType::OrderedSet => "ordered_set",
            TableType::Bag => "bag",
            TableType::DuplicateBag => "duplicate_bag",
        }
    }

    /// The name of this table type, as an owned string.
    pub fn to_string(&self) -> (r: String)
        ensures
            r@ == self.tag(),
    {
        String::from_str(self.as_str())
    }

    /// Decodes a table type from its atom; every other term is rejected.
    pub fn decode(t: &Term) -> (r: Result<TableType, Error>)
        ensures
            match table_type_of(*t) {
                Some(k) => r matches Ok(x) && x == k,
                None => r matches Err(Error::Deserialization(_)),
            },
    {
        if t.is_atom_named("set") {
            Ok(TableType::UnorderedSet)
        } else if t.is_atom_named("ordered_set") {
            Ok(TableType::OrderedSet)
        } else if t.is_atom_named("bag") {
            Ok(TableType::Bag)
        } else if t.is_atom_named("duplicate_bag") {
            Ok(TableType::DuplicateBag)
        } else {
            Err(Error::Deserialization(rejection("table type", t)))
        }
    }
}

impl Protection {
    /// The atom that names this protection.
    pub open spec fn tag(self) -> Seq<char> {
        match self {
            Protection::Public => "public"@,
            Protection::Protected => "protected"@,
            Protection::Private => "private"@,
        }
    }

    /// The name of this protection.
    pub fn as_str(&self) -> (r: &'static str)
        ensures
            r@ == self.tag(),
    {
        match self {
            Protection::Public => "public",
            Protection::Protected => "protected",
            Protection::Private => "private",
        }
    }

    /// The name of this protection, as an owned string.
    pub fn to_string(&self) -> (r: String)
        ensures
            r@ == self.tag(),
    {
        String::from_str(self.as_str())
    }

    /// Decodes a protection from its atom; every other term is rejected.
    pub fn decode(t: &Term) -> (r: Result<Protection, Error>)
        ensures
            match protection_of(*t) {
                Some(p) => r matches Ok(x) && x == p,
                None => r matches Err(Error::Deserialization(_)),
            },
    {
        if t.is_atom_named("public") {
            Ok(Protection::Public)
        } else if t.is_atom_named("protected") {
            Ok(Protection::Protected)
        } else if t.is_atom_named("private") {
            Ok(Protection::Private)
        } else {
            Err(Error::Deserialization(rejection("protection", t)))
        }
    }
}

/// The text of a decode error: what was expected and the term that came.
fn rejection(what: &str, t: &Term) -> (r: String)
    ensures
        r@ == "invalid "@ + what@ + ": "@ + rendering(*t),
{
    let mut msg = String::from_str("invalid ");
    msg.append(what);
    msg.append(": ");
    write_term(t, &mut msg);
    msg
}

/// The text a field holds: an atom or a string.
pub open spec fn text_of(t: Term) -> Option<String> {
    match t {
        Term::Atom(s) => Some(s),
        Term::Str(s) => Some(s),
        _ => None,
    }
}

/// The count a field holds: a non-negative integer.
pub open spec fn count_of(t: Term) -> Option<u64> {
    match t {
        Term::Integer(n) => if n >= 0 {
            Some(n as u64)
        } else {
            None
        },
        _ => None,
    }
}

pub open spec fn name_field(info: Term) -> Option<String> {
    match field_value(info, "name"@) {
        Some(v) => text_of(v),
        None => None,
    }
}

pub open spec fn type_field(info: Term) -> Option<TableType> {
    match field_value(info, "type"@) {
        Some(v) => table_type_of(v),
        None => None,
    }
}

pub open spec fn size_field(info: Term) -> Option<u64> {
    match field_value(info, "size"@) {
        Some(v) => count_of(v),
        None => None,
    }
}

/// The memory of a table as the node reports it, in words.
pub open spec fn memory_field(info: Term) -> Option<u64> {
    match field_value(info, "memory"@) {
        Some(v) => count_of(v),
        None => None,
    }
}

pub open spec fn protection_field(info: Term) -> Option<Protection> {
    match field_value(info, "protection"@) {
        Some(v) => protection_of(v),
        None => None,
    }
}

/// The owner's text: the rendering of the `owner` entry, or `unknown`.
pub open spec fn owner_text(info: Term) -> Seq<char> {
    match proplist_get(info, "owner"@) {
        Some(o) => rendering(o),
        None => "unknown"@,
    }
}

/// Whether a table's info term decodes, given the node's word size in bytes.
pub open spec fn info_decodes(info: Term, word_size: u64) -> bool {
    &&& name_field(info) is Some
    &&& type_field(info) is Some
    &&& size_field(info) is Some
    &&& memory_field(info) is Some
    &&& protection_field(info) is Some
    &&& memory_field(info)->Some_0 * word_size <= u64::MAX
}

/// The record that a table's info term decodes to, where it decodes.
pub open spec fn decoded(info: Term, word_size: u64) -> TableInfoView {
    TableInfoView {
        name: name_field(info)->Some_0@,
        table_type: type_field(info)->Some_0,
        size: size_field(info)->Some_0,
        memory_bytes: (memory_field(info)->Some_0 * word_size) as u64,
        owner: owner_text(info),
        protection: protection_field(info)->Some_0,
    }
}

fn missing(field: &str) -> (r: Error)
    ensures
        r is Deserialization,
{
    let mut msg = String::from_str("missing field ");
    msg.append(field);
    Error::Deserialization(msg)
}

fn text_field(info: &Term, key: &str) -> (r: Result<String, Error>)
    ensures
        match field_value(*info, key@) {
            Some(v) => match text_of(v) {
                Some(s) => r == Ok::<String, Error>(s),
                None => r matches Err(Error::Deserialization(_)),
            },
            None => r matches Err(Error::Deserialization(_)),
        },
{
    match info.field(key) {
        Some(Term::Atom(s)) => Ok(s.clone()),
        Some(Term::Str(s)) => Ok(s.clone()),
        Some(other) => Err(Error::Deserialization(rejection(key, other))),
        None => Err(missing(key)),
    }
}

fn count_field(info: &Term, key: &str) -> (r: Result<u64, Error>)
    ensures
        match field_value(*info, key@) {
            Some(v) => match count_of(v) {
                Some(n) => r == Ok::<u64, Error>(n),
                None => r matches Err(Error::Deserialization(_)),
            },
            None => r matches Err(Error::Deserialization(_)),
        },
{
    match info.field(key) {
        Some(Term::Integer(n)) => {
            if *n >= 0 {
                Ok(*n as u64)
            } else {
                Err(Error::Deserialization(rejection(key, info.field(key).unwrap())))
            }
        },
        Some(other) => Err(Error::Deserialization(rejection(key, other))),
        None => Err(missing(key)),
    }
}

/// Decodes the info term of one table into its record.
///
/// `memory_bytes` is the reported word count times `word_size`; a product
/// that does not fit is a decode error. The owner is read from the property
/// list separately and is `unknown` where absent.
pub fn parse_table_info(info: &Term, word_size: u64) -> (r: Result<EtsTableInfo, Error>)
    ensures
        r is Ok <==> info_decodes(*info, word_size),
        r matches Ok(t) ==> t@ == decoded(*info, word_size),
        r matches Err(e) ==> e is Deserialization,
{
    proof {
        reveal_strlit("unknown");
    }
    let owner = match info.proplist_get_atom_key("owner") {
        Some(o) => o.render(),
        None => String::from_str("unknown"),
    };
    let name = text_field(info, "name")?;
    let table_type = match info.field("type") {
        Some(v) => TableType::decode(v)?,
        None => {
            return Err(missing("type"));
        },
    };
    let size = count_field(info, "size")?;
    let memory = count_field(info, "memory")?;
    let protection = match info.field("protection") {
        Some(v) => Protection::decode(v)?,
        None => {
            return Err(missing("protection"));
        },
    };
    let memory_bytes = match memory.checked_mul(word_size) {
        Some(b) => b,
        None => {
            return Err(Error::Deserialization(String::from_str("memory out of range")));
        },
    };
    Ok(EtsTableInfo { name, table_type, size, memory_bytes, owner, protection })
}

/// The word size a reply payload gives: a strictly positive integer.
pub open spec fn word_size_of(p: Term) -> Option<u64> {
    match p {
        Term::Integer(n) => if n > 0 {
            Some(n as u64)
        } else {
            None
        },
        _ => None,
    }
}

/// The text of the error for a word size reply that is no positive integer.
pub open spec fn word_size_message(p: Term) -> Seq<char> {
    "Expected positive integer for wordsize, got: "@ + rendering(p)
}

/// Decodes the node's word size from the payload of its reply.
pub fn decode_word_size(p: &Term) -> (r: Result<u64, Error>)
    ensures
        match word_size_of(*p) {
            Some(n) => r == Ok::<u64, Error>(n),
            None => r matches Err(Error::UnexpectedResponse(m)) && m@ == word_size_message(*p),
        },
{
    if let Term::Integer(n) = p {
        if *n > 0 {
            return Ok(*n as u64);
        }
    }
    let mut msg = String::from_str("Expected positive integer for wordsize, got: ");
    write_term(p, &mut msg);
    Err(Error::UnexpectedResponse(msg))
}

/// A decoded table's memory is exactly its reported word count times the word
/// size: the scaling to bytes happens in decoding. A product past `u64::MAX`
/// does not decode.
pub proof fn lemma_memory_scaling(info: Term, words: u64, word_size: u64)
    requires
        memory_field(info) == Some(words),
    ensures
        info_decodes(info, word_size) ==> decoded(info, word_size).memory_bytes == words * word_size,
        words * word_size > u64::MAX ==> !info_decodes(info, word_size),
{
}

} // verus!

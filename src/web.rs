use crate::errors::Error;
use crate::ets::EtsTableInfo;
use crate::term::{rendering, Term};
use vstd::prelude::*;
use vstd::string::*;

verus! {

/// What the web service knows of its target: the node and the cookie.
pub struct AppState {
    pub node: String,
    pub cookie: String,
}

impl AppState {
    pub fn new(node: String, cookie: String) -> (r: Self)
        ensures
            r.node == node,
            r.cookie == cookie,
    {
        AppState { node, cookie }
    }
}

/// The answer to a table listing request.
pub struct TablesListResponse {
    pub tables: Vec<EtsTableInfo>,
    pub total: usize,
}

impl TablesListResponse {
    /// The listing with its count.
    pub fn new(tables: Vec<EtsTableInfo>) -> (r: Self)
        ensures
            r.tables == tables,
            r.total == tables@.len(),
    {
        let total = tables.len();
        TablesListResponse { tables, total }
    }
}

/// One rendered entry of a dump, numbered from 1.
pub struct TableEntry {
    pub index: usize,
    pub entry: String,
}

/// The answer to a table contents request.
pub struct TableContentsResponse {
    pub table_name: String,
    pub entries: Vec<TableEntry>,
    pub total: usize,
}

impl TableContentsResponse {
    /// Numbers the dumped entries from 1 and renders each of them.
    pub fn new(table_name: String, entries: Vec<Term>) -> (r: Self)
        ensures
            r.table_name == table_name,
            r.total == entries@.len(),
            r.entries@.len() == entries@.len(),
            forall|i: int| 0 <= i < entries@.len() ==> {
                &&& (#[trigger] r.entries@[i]).index == i + 1
                &&& r.entries@[i].entry@ == rendering(entries@[i])
            },
    {
        let total = entries.len();
        let mut rows: Vec<TableEntry> = Vec::new();
        let mut i: usize = 0;
        while i < entries.len()
            invariant
                i <= entries@.len(),
                total == entries@.len(),
                rows@.len() == i,
                forall|k: int| 0 <= k < i ==> {
                    &&& (#[trigger] rows@[k]).index == k + 1
                    &&& rows@[k].entry@ == rendering(entries@[k])
                },
            decreases entries@.len() - i,
        {
            rows.push(TableEntry { index: i + 1, entry: entries[i].render() });
            i = i + 1;
        }
        TableContentsResponse { table_name, entries: rows, total }
    }
}

/// The error of a web request.
#[derive(Debug)]
#[non_exhaustive]
pub enum ServerError {
    Ets(Error),
}

/// The HTTP status and message for an error: 404 for a missing table, 401 for
/// a missing cookie, 500 for everything else.
pub open spec fn status_of(e: Error) -> u16 {
    match e {
        Error::TableNotFound(_) => 404,
        Error::CookieNotFound(_) => 401,
        _ => 500,
    }
}

impl ServerError {
    /// The HTTP status and the message of the error body.
    pub fn status_and_message(&self) -> (r: (u16, String))
        ensures
            match self {
                ServerError::Ets(e) => {
                    &&& r.0 == status_of(*e)
                    &&& match e {
                        Error::TableNotFound(name) => r.1@ == "Table not found: "@ + name@,
                        Error::CookieNotFound(m) => r.1@ == m@,
                        Error::Node(_) => true,
                        _ => r.1@ == e.message_text(),
                    }
                },
            },
    {
        match self {
            ServerError::Ets(Error::TableNotFound(name)) => {
                let mut m = String::from_str("Table not found: ");
                m.append(name.as_str());
                (404, m)
            },
            ServerError::Ets(Error::CookieNotFound(m)) => (401, m.clone()),
            ServerError::Ets(e) => (500, e.message()),
        }
    }
}

} // verus!

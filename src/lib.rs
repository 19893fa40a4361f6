//! Read-only inspection of the in-memory tables of a running Erlang node.
//!
//! The library holds the logic of the inspector: the model of wire terms,
//! the decoding of remote replies into table records, the per-step query
//! machines that decide which remote call comes next, and the pure helpers
//! (cookie resolution, name filtering, ordering, display) around them. The
//! driver that owns the network session hands each reply to a machine and
//! makes the call it asks for.

pub mod cookie;
pub mod display;
pub mod errors;
pub mod ets;
pub mod filter;
pub mod order;
pub mod query;
pub mod session;
pub mod term;
pub mod text;
pub mod web;

pub use cookie::{get_erlang_cookie, CookieFile};
pub use display::{format_memory, total_memory_bytes};
pub use errors::Error;
pub use ets::{decode_word_size, parse_table_info, EtsTableInfo, Protection, TableType};
pub use filter::{filter_tables, NamePattern};
pub use order::{sort_by_memory_desc, sort_by_name};
pub use query::{list_tables_from_replies, RemoteCall, Step, TableDumper, TableLister};
pub use session::{generate_local_node_name, local_node_name};
pub use term::{Pid, Reference, Term};
pub use web::{AppState, ServerError, TableContentsResponse, TableEntry, TablesListResponse};

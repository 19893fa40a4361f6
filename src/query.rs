use crate::errors::Error;
use crate::ets::{
    decode_word_size, decoded, info_decodes, parse_table_info, word_size_message, word_size_of,
    EtsTableInfo, TableInfoView,
};
use crate::order::{names_ascending, sort_by_name, sorted_by_name, views};
use crate::term::{
    atom_is, envelope_message, is_undefined_term, list_items, not_a_list_message, rex_payload,
    Term,
};
use vstd::prelude::*;
use vstd::string::*;

verus! {

/// A remote procedure call for the driver to make on the target node.
pub struct RemoteCall {
    pub module: String,
    pub function: String,
    pub args: Vec<Term>,
}

/// What a query machine asks for after a reply: another call, or its result.
pub enum Step<T> {
    Call(RemoteCall),
    Done(Result<T, Error>),
}

/// Whether `c` calls `module:function` with `args`.
pub open spec fn calls(c: RemoteCall, module: Seq<char>, function: Seq<char>, args: Seq<Term>) -> bool {
    c.module@ == module && c.function@ == function && c.args@ == args
}

/// Whether `c` asks the node for its word size: `erlang:system_info(wordsize)`.
pub open spec fn is_word_size_call(c: RemoteCall) -> bool {
    c.module@ == "erlang"@ && c.function@ == "system_info"@ && c.args@.len() == 1
        && atom_is(c.args@[0], "wordsize"@)
}

/// Whether `c` asks `ets:info` about the table called `name`.
pub open spec fn is_named_call(c: RemoteCall, function: Seq<char>, name: Seq<char>) -> bool {
    c.module@ == "ets"@ && c.function@ == function && c.args@.len() == 1 && atom_is(c.args@[0], name)
}

fn remote_call(module: &str, function: &str, args: Vec<Term>) -> (c: RemoteCall)
    ensures
        calls(c, module@, function@, args@),
{
    RemoteCall { module: String::from_str(module), function: String::from_str(function), args }
}

/// The records after one `ets:info` reply: an `undefined` payload (the table
/// vanished since it was listed) adds nothing; nothing at all where the reply
/// is malformed.
pub open spec fn info_step(found: Seq<TableInfoView>, reply: Term, word_size: u64) -> Option<Seq<TableInfoView>> {
    match rex_payload(reply) {
        None => None,
        Some(p) => if is_undefined_term(p) {
            Some(found)
        } else if info_decodes(p, word_size) {
            Some(found.push(decoded(p, word_size)))
        } else {
            None
        },
    }
}

/// The records that a sequence of `ets:info` replies gives, or nothing where one fails.
pub open spec fn info_fold(replies: Seq<Term>, word_size: u64) -> Option<Seq<TableInfoView>>
    decreases replies.len(),
{
    if replies.len() == 0 {
        Some(seq![])
    } else {
        match info_fold(replies.drop_last(), word_size) {
            None => None,
            Some(found) => info_step(found, replies.last(), word_size),
        }
    }
}

/// Where a listing stands.
pub enum ListPhase {
    /// The word size has been asked for.
    WordSize,
    /// The table references have been asked for.
    Tables { word_size: u64 },
    /// One table has been asked about; `pending` are still to be asked about.
    Info { word_size: u64, pending: Seq<Term>, found: Seq<TableInfoView> },
    /// The result has been handed out.
    Finished,
}

enum ListStage {
    WordSize,
    Tables,
    Info,
    Finished,
}

/// The decisions of a table listing, one remote reply at a time.
///
/// The driver makes the call that `start` returns, hands each reply to
/// `on_reply`, and makes the next call asked for, until the result comes.
pub struct TableLister {
    stage: ListStage,
    word_size: u64,
    pending: Vec<Term>,
    tables: Vec<EtsTableInfo>,
}

impl TableLister {
    pub closed spec fn phase(&self) -> ListPhase {
        match self.stage {
            ListStage::WordSize => ListPhase::WordSize,
            ListStage::Tables => ListPhase::Tables { word_size: self.word_size },
            ListStage::Info => ListPhase::Info {
                word_size: self.word_size,
                pending: self.pending@,
                found: views(self.tables@),
            },
            ListStage::Finished => ListPhase::Finished,
        }
    }

    /// A new listing and its first call, which asks for the word size.
    pub fn start() -> (r: (TableLister, RemoteCall))
        ensures
            r.0.phase() is WordSize,
            is_word_size_call(r.1),
    {
        let mut args: Vec<Term> = Vec::new();
        args.push(Term::atom("wordsize"));
        let lister = TableLister {
            stage: ListStage::WordSize,
            word_size: 0,
            pending: Vec::new(),
            tables: Vec::new(),
        };
        (lister, remote_call("erlang", "system_info", args))
    }

    fn finish(&mut self, e: Error) -> (r: Step<Vec<EtsTableInfo>>)
        ensures
            final(self).phase() is Finished,
            r matches Step::Done(Err(x)) && x == e,
    {
        self.stage = ListStage::Finished;
        Step::Done(Err(e))
    }

    /// Takes the reply to the last call and decides what comes next.
    ///
    /// A malformed reply ends the listing with an error and no records. An
    /// `undefined` info reply is skipped. After the last info reply the
    /// records come out sorted by name.
    pub fn on_reply(&mut self, reply: Term) -> (r: Step<Vec<EtsTableInfo>>)
        requires
            !(old(self).phase() is Finished),
        ensures
            match rex_payload(reply) {
                None => final(self).phase() is Finished && (r matches Step::Done(
                    Err(Error::UnexpectedResponse(m)),
                ) && m@ == envelope_message(reply)),
                Some(p) => match old(self).phase() {
                    ListPhase::WordSize => match word_size_of(p) {
                        None => final(self).phase() is Finished && (r matches Step::Done(
                            Err(Error::UnexpectedResponse(m)),
                        ) && m@ == word_size_message(p)),
                        Some(n) => final(self).phase() == (ListPhase::Tables { word_size: n }) && (
                        r matches Step::Call(c) && calls(c, "ets"@, "all"@, seq![])),
                    },
                    ListPhase::Tables { word_size } => match list_items(p) {
                        None => final(self).phase() is Finished && (r matches Step::Done(
                            Err(Error::TermConversion(m)),
                        ) && m@ == not_a_list_message(p)),
                        Some(refs) => if refs.len() == 0 {
                            final(self).phase() is Finished && (r matches Step::Done(Ok(v))
                                && v@.len() == 0)
                        } else {
                            final(self).phase() == (ListPhase::Info {
                                word_size,
                                pending: refs.drop_first(),
                                found: seq![],
                            }) && (r matches Step::Call(c) && calls(
                                c,
                                "ets"@,
                                "info"@,
                                seq![refs[0]],
                            ))
                        },
                    },
                    ListPhase::Info { word_size, pending, found } => match info_step(
                        found,
                        reply,
                        word_size,
                    ) {
                        None => final(self).phase() is Finished && (r matches Step::Done(
                            Err(Error::Deserialization(_)),
                        )),
                        Some(now) => if pending.len() == 0 {
                            final(self).phase() is Finished && (r matches Step::Done(Ok(v))
                                && views(v@) == sorted_by_name(now) && names_ascending(views(v@))
                                && views(v@).to_multiset() == now.to_multiset())
                        } else {
                            final(self).phase() == (ListPhase::Info {
                                word_size,
                                pending: pending.drop_first(),
                                found: now,
                            }) && (r matches Step::Call(c) && calls(
                                c,
                                "ets"@,
                                "info"@,
                                seq![pending[0]],
                            ))
                        },
                    },
                    ListPhase::Finished => false,
                },
            },
    {
        let payload = match reply.into_rex_payload() {
            Ok(p) => p,
            Err(e) => {
                return self.finish(e);
            },
        };
        match self.stage {
            ListStage::WordSize => match decode_word_size(&payload) {
                Ok(n) => {
                    self.word_size = n;
                    self.stage = ListStage::Tables;
                    let none: Vec<Term> = Vec::new();
                    assert(none@ =~= seq![]);
                    Step::Call(remote_call("ets", "all", none))
                },
                Err(e) => self.finish(e),
            },
            ListStage::Tables => match payload.try_into_list() {
                Ok(mut refs) => {
                    if refs.len() == 0 {
                        self.stage = ListStage::Finished;
                        Step::Done(Ok(Vec::new()))
                    } else {
                        let ghost all = refs@;
                        let first = refs.remove(0);
                        self.pending = refs;
                        self.tables = Vec::new();
                        self.stage = ListStage::Info;
                        let mut args: Vec<Term> = Vec::new();
                        args.push(first);
                        proof {
                            assert(self.pending@ =~= all.drop_first());
                            assert(args@ =~= seq![all[0]]);
                            assert(views(self.tables@) =~= seq![]);
                        }
                        Step::Call(remote_call("ets", "info", args))
                    }
                },
                Err(e) => self.finish(e),
            },
            ListStage::Info => {
                if !payload.is_undefined() {
                    match parse_table_info(&payload, self.word_size) {
                        Ok(t) => {
                            let ghost before = self.tables@;
                            self.tables.push(t);
                            proof {
                                assert(views(self.tables@) =~= views(before).push(t@));
                            }
                        },
                        Err(e) => {
                            return self.finish(e);
                        },
                    }
                }
                if self.pending.len() == 0 {
                    let mut tables: Vec<EtsTableInfo> = Vec::new();
                    std::mem::swap(&mut tables, &mut self.tables);
                    self.stage = ListStage::Finished;
                    Step::Done(Ok(sort_by_name(tables)))
                } else {
                    let ghost all = self.pending@;
                    let next = self.pending.remove(0);
                    let mut args: Vec<Term> = Vec::new();
                    args.push(next);
                    proof {
                        assert(self.pending@ =~= all.drop_first());
                        assert(args@ =~= seq![all[0]]);
                    }
                    Step::Call(remote_call("ets", "info", args))
                }
            },
            ListStage::Finished => Step::Done(Ok(Vec::new())),
        }
    }
}

/// Where a dump stands.
pub enum DumpPhase {
    /// The table has been asked about, to learn whether it exists.
    Info { name: Seq<char> },
    /// The table's contents have been asked for.
    Contents { name: Seq<char> },
    /// The result has been handed out.
    Finished,
}

enum DumpStage {
    Info,
    Contents,
    Finished,
}

/// The decisions of a table dump, one remote reply at a time.
///
/// The dump first checks that the named table exists, then asks for all of
/// its entries at once.
pub struct TableDumper {
    stage: DumpStage,
    name: String,
}

/// The single argument of a call that names a table: the atom of its name.
fn name_args(name: &str) -> (r: Vec<Term>)
    ensures
        r@.len() == 1,
        atom_is(r@[0], name@),
{
    let mut args: Vec<Term> = Vec::new();
    args.push(Term::atom(name));
    args
}

impl TableDumper {
    pub closed spec fn phase(&self) -> DumpPhase {
        match self.stage {
            DumpStage::Info => DumpPhase::Info { name: self.name@ },
            DumpStage::Contents => DumpPhase::Contents { name: self.name@ },
            DumpStage::Finished => DumpPhase::Finished,
        }
    }

    /// A new dump of the table called `table_name`, and its first call:
    /// `ets:info` on that name.
    pub fn start(table_name: &str) -> (r: (TableDumper, RemoteCall))
        ensures
            r.0.phase() == (DumpPhase::Info { name: table_name@ }),
            is_named_call(r.1, "info"@, table_name@),
    {
        let dumper = TableDumper { stage: DumpStage::Info, name: String::from_str(table_name) };
        (dumper, remote_call("ets", "info", name_args(table_name)))
    }

    /// Takes the reply to the last call and decides what comes next.
    ///
    /// An `undefined` info reply means the table does not exist: the dump
    /// ends with `TableNotFound`, never with an empty result.
    pub fn on_reply(&mut self, reply: Term) -> (r: Step<Vec<Term>>)
        requires
            !(old(self).phase() is Finished),
        ensures
            final(self).phase() is Finished || final(self).phase() is Contents,
            match rex_payload(reply) {
                None => final(self).phase() is Finished && (r matches Step::Done(
                    Err(Error::UnexpectedResponse(m)),
                ) && m@ == envelope_message(reply)),
                Some(p) => match old(self).phase() {
                    DumpPhase::Info { name } => if is_undefined_term(p) {
                        final(self).phase() is Finished && (r matches Step::Done(
                            Err(Error::TableNotFound(n)),
                        ) && n@ == name)
                    } else {
                        final(self).phase() == (DumpPhase::Contents { name }) && (
                        r matches Step::Call(c) && is_named_call(c, "tab2list"@, name))
                    },
                    DumpPhase::Contents { name } => final(self).phase() is Finished && match list_items(
                        p,
                    ) {
                        None => r matches Step::Done(Err(Error::TermConversion(m)))
                            && m@ == not_a_list_message(p),
                        Some(entries) => r matches Step::Done(Ok(v)) && v@ == entries,
                    },
                    DumpPhase::Finished => false,
                },
            },
    {
        let payload = match reply.into_rex_payload() {
            Ok(p) => p,
            Err(e) => {
                self.stage = DumpStage::Finished;
                return Step::Done(Err(e));
            },
        };
        match self.stage {
            DumpStage::Info => {
                if payload.is_undefined() {
                    self.stage = DumpStage::Finished;
                    Step::Done(Err(Error::TableNotFound(self.name.clone())))
                } else {
                    self.stage = DumpStage::Contents;
                    Step::Call(remote_call("ets", "tab2list", name_args(self.name.as_str())))
                }
            },
            DumpStage::Contents => {
                self.stage = DumpStage::Finished;
                Step::Done(payload.try_into_list())
            },
            DumpStage::Finished => Step::Done(Ok(Vec::new())),
        }
    }
}

/// The outcome of a listing that receives `replies`, one per call in order:
/// nothing while they do not suffice; else the records, or nothing inside
/// where the listing fails.
pub open spec fn list_run(replies: Seq<Term>) -> Option<Option<Seq<TableInfoView>>> {
    if replies.len() == 0 {
        None
    } else {
        match rex_payload(replies[0]) {
            None => Some(None),
            Some(p) => match word_size_of(p) {
                None => Some(None),
                Some(word_size) => if replies.len() == 1 {
                    None
                } else {
                    match rex_payload(replies[1]) {
                        None => Some(None),
                        Some(q) => match list_items(q) {
                            None => Some(None),
                            Some(refs) => info_run(replies.skip(2), refs.len(), word_size),
                        },
                    }
                },
            },
        }
    }
}

/// The outcome of the info phase over `n` table references.
pub open spec fn info_run(replies: Seq<Term>, n: nat, word_size: u64) -> Option<Option<Seq<TableInfoView>>> {
    if replies.len() < n {
        match info_fold(replies, word_size) {
            None => Some(None),
            Some(_) => None,
        }
    } else {
        match info_fold(replies.take(n as int), word_size) {
            None => Some(None),
            Some(found) => Some(Some(sorted_by_name(found))),
        }
    }
}

proof fn lemma_info_fold_failure_persists(rs: Seq<Term>, m: int, l: int, word_size: u64)
    requires
        0 <= m <= l <= rs.len(),
        info_fold(rs.take(m), word_size) is None,
    ensures
        info_fold(rs.take(l), word_size) is None,
    decreases l - m,
{
    if m < l {
        lemma_info_fold_failure_persists(rs, m, l - 1, word_size);
        assert(rs.take(l).drop_last() =~= rs.take(l - 1));
    }
}

/// Whether a lister that has consumed the first `k` of `replies` stands
/// where `list_run` says it does.
spec fn consumed(lister: TableLister, replies: Seq<Term>, k: int) -> bool {
    &&& 0 <= k <= replies.len()
    &&& if k == 0 {
        lister.phase() is WordSize
    } else {
        &&& rex_payload(replies[0]) is Some
        &&& word_size_of(rex_payload(replies[0])->Some_0) is Some
        &&& if k == 1 {
            lister.phase() == (ListPhase::Tables {
                word_size: word_size_of(rex_payload(replies[0])->Some_0)->Some_0,
            })
        } else {
            let refs = list_items(rex_payload(replies[1])->Some_0)->Some_0;
            &&& rex_payload(replies[1]) is Some
            &&& list_items(rex_payload(replies[1])->Some_0) is Some
            &&& k - 2 < refs.len()
            &&& info_fold(replies.subrange(2, k), word_size_of(rex_payload(replies[0])->Some_0)->Some_0) is Some
            &&& lister.phase() == (ListPhase::Info {
                word_size: word_size_of(rex_payload(replies[0])->Some_0)->Some_0,
                pending: refs.skip(k - 1),
                found: info_fold(
                    replies.subrange(2, k),
                    word_size_of(rex_payload(replies[0])->Some_0)->Some_0,
                )->Some_0,
            })
        }
    }
}

/// Runs a listing over recorded replies, one per call in order. `None` where
/// the replies run out before the listing ends.
pub fn list_tables_from_replies(replies: Vec<Term>) -> (r: Option<Result<Vec<EtsTableInfo>, Error>>)
    ensures
        match list_run(replies@) {
            None => r is None,
            Some(None) => r matches Some(Err(_)),
            Some(Some(tables)) => r matches Some(Ok(v)) && views(v@) == tables,
        },
{
    let (mut lister, _first) = TableLister::start();
    let mut rest = replies;
    let ghost all = rest@;
    let ghost mut k: int = 0;
    assert(all.skip(0) =~= all);
    while rest.len() > 0
        invariant
            all == replies@,
            rest@ == all.skip(k),
            consumed(lister, all, k),
        decreases rest@.len(),
    {
        let reply = rest.remove(0);
        let ghost before = lister;
        proof {
            assert(reply == all[k]);
        }
        let step = lister.on_reply(reply);
        match step {
            Step::Call(_) => {
                proof {
                    if k >= 2 {
                        let word_size = word_size_of(rex_payload(all[0])->Some_0)->Some_0;
                        assert(all.subrange(2, k + 1).drop_last() =~= all.subrange(2, k));
                        assert(all.subrange(2, k + 1).last() == all[k]);
                        let refs = list_items(rex_payload(all[1])->Some_0)->Some_0;
                        assert(refs.skip(k - 1).drop_first() =~= refs.skip(k));
                    }
                    if k == 1 {
                        assert(all.subrange(2, 2) =~= Seq::<Term>::empty());
                        let refs = list_items(rex_payload(all[1])->Some_0)->Some_0;
                        assert(refs.drop_first() =~= refs.skip(1));
                    }
                    k = k + 1;
                    assert(rest@ =~= all.skip(k));
                }
            },
            Step::Done(result) => {
                proof {
                    if k >= 2 {
                        let word_size = word_size_of(rex_payload(all[0])->Some_0)->Some_0;
                        let refs = list_items(rex_payload(all[1])->Some_0)->Some_0;
                        let rs = all.skip(2);
                        assert(all.subrange(2, k + 1).drop_last() =~= all.subrange(2, k));
                        assert(all.subrange(2, k + 1).last() == all[k]);
                        assert(all.subrange(2, k + 1) =~= rs.take(k - 1));
                        if info_fold(rs.take(k - 1), word_size) is None {
                            if rs.len() < refs.len() {
                                lemma_info_fold_failure_persists(rs, k - 1, rs.len() as int, word_size);
                                assert(rs.take(rs.len() as int) =~= rs);
                            } else {
                                lemma_info_fold_failure_persists(rs, k - 1, refs.len() as int, word_size);
                            }
                        }
                    }
                    if k == 1 {
                        assert(all.skip(2).take(0) =~= Seq::<Term>::empty());
                        assert(info_fold(Seq::<Term>::empty(), word_size_of(rex_payload(all[0])->Some_0)->Some_0) == Some(Seq::<TableInfoView>::empty()));
                        assert(sorted_by_name(Seq::<TableInfoView>::empty()) == Seq::<TableInfoView>::empty());
                        if result is Ok {
                            assert(views(result->Ok_0@) =~= Seq::<TableInfoView>::empty());
                        }
                    }
                }
                return Some(result);
            },
        }
    }
    proof {
        if k >= 2 {
            assert(all.subrange(2, k) =~= all.skip(2));
        }
    }
    None
}

/// Listing is a function of what the node answers: against the same replies
/// two listings give the same records in the same order.
pub proof fn lemma_list_idempotent(first: Seq<Term>, second: Seq<Term>)
    requires
        first == second,
    ensures
        list_run(first) == list_run(second),
{
}

/// Every successful listing is ordered by name.
pub proof fn lemma_list_sorted(replies: Seq<Term>)
    ensures
        list_run(replies) matches Some(Some(tables)) ==> names_ascending(tables),
{
    if list_run(replies) matches Some(Some(tables)) {
        let word_size = word_size_of(rex_payload(replies[0])->Some_0)->Some_0;
        let refs = list_items(rex_payload(replies[1])->Some_0)->Some_0;
        let found = info_fold(replies.skip(2).take(refs.len() as int), word_size)->Some_0;
        crate::order::lemma_sorted_by_name(found);
    }
}

/// A table that vanishes between enumeration and its info call is skipped:
/// an info reply whose payload is `undefined` changes neither the records
/// nor success.
pub proof fn lemma_vanish_tolerance(replies: Seq<Term>, i: int, word_size: u64)
    requires
        0 <= i < replies.len(),
        rex_payload(replies[i]) matches Some(p) && is_undefined_term(p),
    ensures
        info_fold(replies, word_size) == info_fold(replies.remove(i), word_size),
    decreases replies.len(),
{
    if i == replies.len() - 1 {
        assert(replies.remove(i) =~= replies.drop_last());
    } else {
        lemma_vanish_tolerance(replies.drop_last(), i, word_size);
        assert(replies.remove(i).drop_last() =~= replies.drop_last().remove(i));
        assert(replies.remove(i).last() == replies.last());
    }
}

} // verus!

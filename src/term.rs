use crate::errors::Error;
use crate::text::{push_decimal, push_signed_decimal, decimal, signed_decimal, text_eq};
use vstd::prelude::*;
use vstd::string::*;

verus! {

broadcast use vstd::std_specs::vec::group_vec_axioms, vstd::seq::group_seq_axioms;

/// A process identifier as it travels on the wire.
pub struct Pid {
    pub node: String,
    pub id: u32,
    pub serial: u32,
    pub creation: u32,
}

/// A reference (for instance a table handle) as it travels on the wire.
pub struct Reference {
    pub node: String,
    pub creation: u32,
    pub ids: Vec<u32>,
}

/// A wire term: the loosely typed value that remote calls take and return.
///
/// The library interprets atoms, integers, strings, lists, tuples and maps,
/// and carries process identifiers and references through unchanged. Every
/// other kind of term (floats, binaries, funs, ports, big integers, improper
/// lists) is held as `Other`, with the text the codec gives for it.
pub enum Term {
    Atom(String),
    Integer(i64),
    Str(String),
    List(Vec<Term>),
    Tuple(Vec<Term>),
    MapOf(Vec<(Term, Term)>),
    Pid(Pid),
    Reference(Reference),
    Nil,
    Other(String),
}

/// Whether `t` is the atom called `name`.
pub open spec fn atom_is(t: Term, name: Seq<char>) -> bool {
    t is Atom && t->Atom_0@ == name
}

/// Whether `t` is the `undefined` atom, the sentinel of an absent value.
pub open spec fn is_undefined_term(t: Term) -> bool {
    atom_is(t, "undefined"@)
}

/// The text of a term, in the form the codec prints terms.
pub open spec fn rendering(t: Term) -> Seq<char>
    decreases t, 0nat,
{
    match t {
        Term::Atom(s) => s@,
        Term::Integer(n) => signed_decimal(n as int),
        Term::Str(s) => seq!['"'] + s@ + seq!['"'],
        Term::List(v) => seq!['['] + joined(v@, v@.len()) + seq![']'],
        Term::Tuple(v) => seq!['{'] + joined(v@, v@.len()) + seq!['}'],
        Term::MapOf(m) => seq!['#', '{'] + joined_pairs(m@, m@.len()) + seq!['}'],
        Term::Pid(p) => seq!['<'] + decimal(p.id as nat) + seq!['.'] + decimal(p.serial as nat)
            + seq!['.'] + decimal(p.creation as nat) + seq!['>'],
        Term::Reference(r) => seq!['#', 'R', 'e', 'f', '<', '['] + joined_numbers(r.ids@, r.ids@.len())
            + seq![']', '>'],
        Term::Nil => seq!['[', ']'],
        Term::Other(s) => s@,
    }
}

/// The separator between rendered items.
pub open spec fn separator() -> Seq<char> {
    seq![',', ' ']
}

/// The renderings of the first `n` items, separated.
pub open spec fn joined(items: Seq<Term>, n: nat) -> Seq<char>
    decreases items, n,
{
    if n == 0 || n > items.len() {
        seq![]
    } else if n == 1 {
        rendering(items[0])
    } else {
        joined(items, (n - 1) as nat) + separator() + rendering(items[n - 1])
    }
}

/// The renderings of the first `n` map entries as `key => value`, separated.
pub open spec fn joined_pairs(entries: Seq<(Term, Term)>, n: nat) -> Seq<char>
    decreases entries, n,
{
    if n == 0 || n > entries.len() {
        seq![]
    } else {
        let e = entries[n - 1];
        let one = rendering(e.0) + seq![' ', '=', '>', ' '] + rendering(e.1);
        if n == 1 {
            one
        } else {
            joined_pairs(entries, (n - 1) as nat) + separator() + one
        }
    }
}

/// The first `n` numbers in decimal, separated.
pub open spec fn joined_numbers(ids: Seq<u32>, n: nat) -> Seq<char>
    decreases n,
{
    if n == 0 || n > ids.len() {
        seq![]
    } else if n == 1 {
        decimal(ids[0] as nat)
    } else {
        joined_numbers(ids, (n - 1) as nat) + separator() + decimal(ids[n - 1] as nat)
    }
}

fn push_separator(out: &mut String)
    ensures
        final(out)@ == old(out)@ + separator(),
{
    proof {
        reveal_strlit(", ");
    }
    out.append(", ");
}

/// Appends the rendering of `t` to `out`.
pub fn write_term(t: &Term, out: &mut String)
    ensures
        final(out)@ == old(out)@ + rendering(*t),
    decreases t,
{
    match t {
        Term::Atom(s) => {
            out.append(s.as_str());
        },
        Term::Integer(n) => {
            push_signed_decimal(out, *n);
        },
        Term::Str(s) => {
            proof {
                reveal_strlit("\"");
            }
            out.append("\"");
            out.append(s.as_str());
            out.append("\"");
            assert(final(out)@ =~= old(out)@ + rendering(*t));
        },
        Term::List(v) => {
            proof {
                reveal_strlit("[");
                reveal_strlit("]");
            }
            out.append("[");
            write_items(t, v, out);
            out.append("]");
            assert(final(out)@ =~= old(out)@ + rendering(*t));
        },
        Term::Tuple(v) => {
            proof {
                reveal_strlit("{");
                reveal_strlit("}");
            }
            out.append("{");
            write_items(t, v, out);
            out.append("}");
            assert(final(out)@ =~= old(out)@ + rendering(*t));
        },
        Term::MapOf(m) => {
            proof {
                reveal_strlit("#{");
                reveal_strlit("}");
            }
            out.append("#{");
            let ghost start = out@;
            let mut i: usize = 0;
            while i < m.len()
                invariant
                    i <= m@.len(),
                    *t == Term::MapOf(*m),
                    out@ == start + joined_pairs(m@, i as nat),
                decreases m@.len() - i,
            {
                if i > 0 {
                    push_separator(out);
                }
                proof {
                    reveal_strlit(" => ");
                }
                let ghost before = out@;
                proof {
                    assert(decreases_to!(*t => t->MapOf_0));
                    assert(decreases_to!(*m => m[i as int]));
                    assert(decreases_to!(m[i as int] => m[i as int].0));
                    assert(decreases_to!(m[i as int] => m[i as int].1));
                }
                write_term(&m[i].0, out);
                out.append(" => ");
                write_term(&m[i].1, out);
                i = i + 1;
                assert(out@ =~= start + joined_pairs(m@, i as nat));
            }
            out.append("}");
            assert(final(out)@ =~= old(out)@ + rendering(*t));
        },
        Term::Pid(p) => {
            proof {
                reveal_strlit("<");
                reveal_strlit(".");
                reveal_strlit(">");
            }
            out.append("<");
            push_decimal(out, p.id as u64);
            out.append(".");
            push_decimal(out, p.serial as u64);
            out.append(".");
            push_decimal(out, p.creation as u64);
            out.append(">");
            assert(final(out)@ =~= old(out)@ + rendering(*t));
        },
        Term::Reference(r) => {
            proof {
                reveal_strlit("#Ref<[");
                reveal_strlit("]>");
            }
            out.append("#Ref<[");
            let ghost start = out@;
            let mut i: usize = 0;
            while i < r.ids.len()
                invariant
                    i <= r.ids@.len(),
                    out@ == start + joined_numbers(r.ids@, i as nat),
                decreases r.ids@.len() - i,
            {
                if i > 0 {
                    push_separator(out);
                }
                push_decimal(out, r.ids[i] as u64);
                i = i + 1;
                assert(out@ =~= start + joined_numbers(r.ids@, i as nat));
            }
            out.append("]>");
            assert(final(out)@ =~= old(out)@ + rendering(*t));
        },
        Term::Nil => {
            proof {
                reveal_strlit("[]");
            }
            out.append("[]");
        },
        Term::Other(s) => {
            out.append(s.as_str());
        },
    }
}

/// Appends the separated renderings of the items of a list or tuple `t`.
fn write_items(t: &Term, v: &Vec<Term>, out: &mut String)
    requires
        *t == Term::List(*v) || *t == Term::Tuple(*v),
    ensures
        final(out)@ == old(out)@ + joined(v@, v@.len()),
    decreases t, 1nat,
{
    let ghost start = out@;
    let mut i: usize = 0;
    while i < v.len()
        invariant
            i <= v@.len(),
            *t == Term::List(*v) || *t == Term::Tuple(*v),
            out@ == start + joined(v@, i as nat),
        decreases v@.len() - i,
    {
        if i > 0 {
            push_separator(out);
        }
        proof {
            if *t is List {
                assert(decreases_to!(*t => t->List_0));
            } else {
                assert(decreases_to!(*t => t->Tuple_0));
            }
            assert(decreases_to!(*v => v[i as int]));
        }
        write_term(&v[i], out);
        i = i + 1;
        assert(out@ =~= start + joined(v@, i as nat));
    }
}

impl Term {
    /// The rendering of this term as a new string.
    pub fn render(&self) -> (r: String)
        ensures
            r@ == rendering(*self),
    {
        let mut out = String::new();
        write_term(self, &mut out);
        assert(out@ =~= rendering(*self));
        out
    }

    /// The atom called `name`.
    pub fn atom(name: &str) -> (r: Term)
        ensures
            atom_is(r, name@),
    {
        Term::Atom(String::from_str(name))
    }

    /// Whether this term is the atom called `name`.
    pub fn is_atom_named(&self, name: &str) -> (r: bool)
        ensures
            r == atom_is(*self, name@),
    {
        match self {
            Term::Atom(s) => text_eq(s.as_str(), name),
            _ => false,
        }
    }

    /// Whether this term is the `undefined` sentinel.
    pub fn is_undefined(&self) -> (r: bool)
        ensures
            r == is_undefined_term(*self),
    {
        self.is_atom_named("undefined")
    }
}


/// The payload of a `{rex, Payload}` reply envelope.
pub open spec fn rex_payload(t: Term) -> Option<Term> {
    match t {
        Term::Tuple(v) => if v@.len() == 2 && atom_is(v@[0], "rex"@) {
            Some(v@[1])
        } else {
            None
        },
        _ => None,
    }
}

/// The text of the error for a reply that is no `{rex, Payload}` envelope.
pub open spec fn envelope_message(t: Term) -> Seq<char> {
    "Expected a {rex, Result} reply, got: "@ + rendering(t)
}

/// The items of a list term; the empty list may come as `Nil`.
pub open spec fn list_items(t: Term) -> Option<Seq<Term>> {
    match t {
        Term::List(v) => Some(v@),
        Term::Nil => Some(seq![]),
        _ => None,
    }
}

/// The text of the error for a term that is no list.
pub open spec fn not_a_list_message(t: Term) -> Seq<char> {
    "Expected a list, got: "@ + rendering(t)
}

/// Whether `t` is a pair `{key, Value}` whose first element is the atom `key`.
pub open spec fn pair_key_is(t: Term, key: Seq<char>) -> bool {
    t is Tuple && t->Tuple_0@.len() == 2 && atom_is(t->Tuple_0@[0], key)
}

/// The value of the first pair keyed by the atom `key` in a property list.
pub open spec fn proplist_value(items: Seq<Term>, key: Seq<char>) -> Option<Term>
    decreases items.len(),
{
    if items.len() == 0 {
        None
    } else if pair_key_is(items[0], key) {
        Some(items[0]->Tuple_0@[1])
    } else {
        proplist_value(items.drop_first(), key)
    }
}

/// The value of the first map entry keyed by the atom `key`.
pub open spec fn map_value(entries: Seq<(Term, Term)>, key: Seq<char>) -> Option<Term>
    decreases entries.len(),
{
    if entries.len() == 0 {
        None
    } else if atom_is(entries[0].0, key) {
        Some(entries[0].1)
    } else {
        map_value(entries.drop_first(), key)
    }
}

/// The value under the atom key `key` of a property list; nothing for other terms.
pub open spec fn proplist_get(t: Term, key: Seq<char>) -> Option<Term> {
    match t {
        Term::List(v) => proplist_value(v@, key),
        _ => None,
    }
}

/// The value under the atom key `key` of a property list or of a map.
pub open spec fn field_value(t: Term, key: Seq<char>) -> Option<Term> {
    match t {
        Term::List(v) => proplist_value(v@, key),
        Term::MapOf(m) => map_value(m@, key),
        _ => None,
    }
}

fn find_in_proplist<'a>(items: &'a Vec<Term>, key: &str) -> (r: Option<&'a Term>)
    ensures
        match r {
            Some(x) => proplist_value(items@, key@) == Some(*x),
            None => proplist_value(items@, key@) is None,
        },
{
    let mut i: usize = 0;
    assert(items@.skip(0) =~= items@);
    while i < items.len()
        invariant
            i <= items@.len(),
            proplist_value(items@, key@) == proplist_value(items@.skip(i as int), key@),
        decreases items@.len() - i,
    {
        let item = &items[i];
        assert(items@.skip(i as int)[0] == items@[i as int]);
        if let Term::Tuple(pair) = item {
            if pair.len() == 2 && pair[0].is_atom_named(key) {
                return Some(&pair[1]);
            }
        }
        assert(items@.skip(i as int).drop_first() =~= items@.skip(i + 1));
        i = i + 1;
    }
    None
}

fn find_in_map<'a>(entries: &'a Vec<(Term, Term)>, key: &str) -> (r: Option<&'a Term>)
    ensures
        match r {
            Some(x) => map_value(entries@, key@) == Some(*x),
            None => map_value(entries@, key@) is None,
        },
{
    let mut i: usize = 0;
    assert(entries@.skip(0) =~= entries@);
    while i < entries.len()
        invariant
            i <= entries@.len(),
            map_value(entries@, key@) == map_value(entries@.skip(i as int), key@),
        decreases entries@.len() - i,
    {
        assert(entries@.skip(i as int)[0] == entries@[i as int]);
        if entries[i].0.is_atom_named(key) {
            return Some(&entries[i].1);
        }
        assert(entries@.skip(i as int).drop_first() =~= entries@.skip(i + 1));
        i = i + 1;
    }
    None
}

impl Term {
    /// Unwraps the payload of a `{rex, Payload}` reply envelope.
    pub fn into_rex_payload(self) -> (r: Result<Term, Error>)
        ensures
            match rex_payload(self) {
                Some(p) => r == Ok::<Term, Error>(p),
                None => r is Err && r->Err_0 is UnexpectedResponse
                    && r->Err_0->UnexpectedResponse_0@ == envelope_message(self),
            },
    {
        let well_formed = match &self {
            Term::Tuple(v) => v.len() == 2 && v[0].is_atom_named("rex"),
            _ => false,
        };
        if !well_formed {
            let mut msg = String::from_str("Expected a {rex, Result} reply, got: ");
            write_term(&self, &mut msg);
            return Err(Error::UnexpectedResponse(msg));
        }
        match self {
            Term::Tuple(mut v) => Ok(v.remove(1)),
            other => Err(Error::UnexpectedResponse(other.render())),
        }
    }

    /// The items of a list term (`Nil` gives no items).
    pub fn try_into_list(self) -> (r: Result<Vec<Term>, Error>)
        ensures
            match list_items(self) {
                Some(items) => r is Ok && r->Ok_0@ == items,
                None => r is Err && r->Err_0 is TermConversion
                    && r->Err_0->TermConversion_0@ == not_a_list_message(self),
            },
    {
        match self {
            Term::List(v) => Ok(v),
            Term::Nil => Ok(Vec::new()),
            other => {
                let mut msg = String::from_str("Expected a list, got: ");
                write_term(&other, &mut msg);
                Err(Error::TermConversion(msg))
            },
        }
    }

    /// The value under the atom key `key` of a property list.
    pub fn proplist_get_atom_key(&self, key: &str) -> (r: Option<&Term>)
        ensures
            match r {
                Some(x) => proplist_get(*self, key@) == Some(*x),
                None => proplist_get(*self, key@) is None,
            },
    {
        match self {
            Term::List(v) => find_in_proplist(v, key),
            _ => None,
        }
    }

    /// The value under the atom key `key` of a property list or a map.
    pub fn field(&self, key: &str) -> (r: Option<&Term>)
        ensures
            match r {
                Some(x) => field_value(*self, key@) == Some(*x),
                None => field_value(*self, key@) is None,
            },
    {
        match self {
            Term::List(v) => find_in_proplist(v, key),
            Term::MapOf(m) => find_in_map(m, key),
            _ => None,
        }
    }
}

} // verus!

use crate::errors::Error;
use crate::ets::EtsTableInfo;
use regex::Error as RegexError;
use vstd::prelude::*;

verus! {

/// A compiled regular expression.
#[verifier::external_type_specification]
#[verifier::external_body]
pub struct ExRegex(regex::Regex);

/// Why a regular expression did not compile.
#[verifier::external_type_specification]
#[verifier::external_body]
pub struct ExRegexError(RegexError);

/// Whether `regex::Regex::new` accepts a pattern: it depends on the pattern alone.
pub uninterp spec fn regex_compiles(pattern: Seq<char>) -> bool;

/// Whether `regex::Regex::is_match` finds a match of a compiled pattern in a text.
pub uninterp spec fn regex_matches(pattern: Seq<char>, text: Seq<char>) -> bool;

/// Relies on `regex::Regex::new`: it fails exactly on patterns that do not compile.
#[verifier::external_body]
fn compile(pattern: &str) -> (r: Result<regex::Regex, RegexError>)
    ensures
        r is Ok == regex_compiles(pattern@),
{
    regex::Regex::new(pattern)
}

/// Relies on `regex::Error`'s `Display`: the text of a compile error.
#[verifier::external_body]
fn regex_error_text(e: &RegexError) -> (r: String) {
    e.to_string()
}

/// A table name pattern: a regular expression with the text it was compiled from.
pub struct NamePattern {
    source: String,
    compiled: regex::Regex,
}

/// Relies on `regex::Regex::is_match`, on the expression compiled from the
/// pattern's source (the only way a `NamePattern` is built).
#[verifier::external_body]
fn is_match(p: &NamePattern, text: &str) -> (r: bool)
    ensures
        r == regex_matches(p.source_text(), text@),
{
    p.compiled.is_match(text)
}

impl NamePattern {
    /// The text the pattern was compiled from.
    pub closed spec fn source_text(&self) -> Seq<char> {
        self.source@
    }

    /// Compiles a name pattern; `InvalidPattern` where it does not compile.
    pub fn new(pattern: &str) -> (r: Result<NamePattern, Error>)
        ensures
            r is Ok == regex_compiles(pattern@),
            r matches Ok(p) ==> p.source_text() == pattern@,
            r matches Err(e) ==> e is InvalidPattern,
    {
        match compile(pattern) {
            Ok(compiled) => Ok(NamePattern { source: String::from_str(pattern), compiled }),
            Err(e) => Err(Error::InvalidPattern(regex_error_text(&e))),
        }
    }

    /// The text the pattern was compiled from.
    pub fn as_str(&self) -> (r: &str)
        ensures
            r@ == self.source_text(),
    {
        self.source.as_str()
    }

    /// Whether the pattern matches somewhere in `name`.
    pub fn is_match(&self, name: &str) -> (r: bool)
        ensures
            r == regex_matches(self.source_text(), name@),
    {
        is_match(self, name)
    }
}

/// The tables whose names the pattern matches, in their order.
pub open spec fn matching(s: Seq<EtsTableInfo>, pattern: Seq<char>) -> Seq<EtsTableInfo>
    decreases s.len(),
{
    if s.len() == 0 {
        s
    } else if regex_matches(pattern, s.last().name@) {
        matching(s.drop_last(), pattern).push(s.last())
    } else {
        matching(s.drop_last(), pattern)
    }
}

/// The tables whose names match `pattern`, in their order; all of them
/// unchanged where there is no pattern.
pub fn filter_tables(tables: Vec<EtsTableInfo>, pattern: Option<&NamePattern>) -> (r: Vec<EtsTableInfo>)
    ensures
        match pattern {
            None => r@ == tables@,
            Some(p) => r@ == matching(tables@, p.source_text()),
        },
{
    match pattern {
        None => tables,
        Some(p) => {
            let mut out: Vec<EtsTableInfo> = Vec::new();
            let mut rest = tables;
            let ghost all = rest@;
            let ghost mut taken: int = 0;
            assert(out@ =~= matching(all.take(0), p.source_text()));
            while rest.len() > 0
                invariant
                    0 <= taken <= all.len(),
                    rest@ == all.skip(taken),
                    out@ == matching(all.take(taken), p.source_text()),
                decreases rest@.len(),
            {
                let t = rest.remove(0);
                proof {
                    assert(all.take(taken + 1).drop_last() =~= all.take(taken));
                    assert(all.take(taken + 1).last() == t);
                }
                if p.is_match(t.name.as_str()) {
                    out.push(t);
                }
                proof {
                    taken = taken + 1;
                    assert(rest@ =~= all.skip(taken));
                }
            }
            assert(all.take(taken) =~= all);
            out
        },
    }
}

/// Filtering keeps exactly the tables whose names match: each kept table
/// matches and was in the input, and each matching input table is kept.
pub proof fn lemma_filter_exact(s: Seq<EtsTableInfo>, pattern: Seq<char>)
    ensures
        forall|t: EtsTableInfo| #[trigger] matching(s, pattern).contains(t)
            <==> (s.contains(t) && regex_matches(pattern, t.name@)),
        matching(s, pattern).len() <= s.len(),
    decreases s.len(),
{
    if s.len() > 0 {
        let init = s.drop_last();
        lemma_filter_exact(init, pattern);
        assert(s =~= init.push(s.last()));
        assert forall|t: EtsTableInfo| #[trigger] matching(s, pattern).contains(t)
            <==> (s.contains(t) && regex_matches(pattern, t.name@)) by {
            if s.contains(t) && t != s.last() {
                let i = choose|i: int| 0 <= i < s.len() && s[i] == t;
                assert(init[i] == t);
            }
            if init.contains(t) {
                let i = choose|i: int| 0 <= i < init.len() && init[i] == t;
                assert(s[i] == t);
            }
            let m = matching(init, pattern);
            if regex_matches(pattern, s.last().name@) {
                if m.push(s.last()).contains(t) && t != s.last() {
                    let i = choose|i: int| 0 <= i < m.len() + 1 && m.push(s.last())[i] == t;
                    assert(m[i] == t);
                }
                if m.contains(t) {
                    let i = choose|i: int| 0 <= i < m.len() && m[i] == t;
                    assert(m.push(s.last())[i] == t);
                }
                assert(m.push(s.last())[m.len() as int] == s.last());
            }
        }
    }
}

} // verus!

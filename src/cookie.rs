use crate::errors::Error;
use vstd::prelude::*;
use vstd::string::*;

verus! {

/// What `str::trim` gives for a text: it depends on the characters alone.
pub uninterp spec fn whitespace_trimmed(s: Seq<char>) -> Seq<char>;

/// Relies on `str::trim`: the text without its leading and trailing whitespace.
#[verifier::external_body]
fn trim(s: &str) -> (r: String)
    ensures
        r@ == whitespace_trimmed(s@),
{
    s.trim().to_string()
}

/// The per-user cookie file, as the caller found it: its path, and its
/// contents where it could be read.
pub struct CookieFile {
    pub path: String,
    pub contents: Option<String>,
}

/// The cookie that resolution picks: an explicit value, else the environment's
/// value (both as given), else the trimmed contents of the cookie file.
pub open spec fn cookie_choice(
    explicit: Option<Seq<char>>,
    env: Option<Seq<char>>,
    file: Option<Seq<char>>,
) -> Option<Seq<char>> {
    match explicit {
        Some(x) => Some(x),
        None => match env {
            Some(y) => Some(y),
            None => match file {
                Some(z) => Some(whitespace_trimmed(z)),
                None => None,
            },
        },
    }
}

pub open spec fn opt_view(s: Option<&str>) -> Option<Seq<char>> {
    match s {
        Some(x) => Some(x@),
        None => None,
    }
}

pub open spec fn opt_string_view(s: Option<String>) -> Option<Seq<char>> {
    match s {
        Some(x) => Some(x@),
        None => None,
    }
}

/// The text of the error when no cookie can be found.
pub open spec fn cookie_not_found_message(path: Seq<char>) -> Seq<char> {
    "Could not read "@ + path + ". Provide --erlang-cookie or set ERLANG_COOKIE"@
}

/// Resolves the distribution cookie: explicit value, then environment value,
/// then the trimmed contents of the cookie file; `CookieNotFound` naming the
/// file's path where none is there.
pub fn get_erlang_cookie(
    explicit_cookie: Option<&str>,
    env_cookie: Option<&str>,
    cookie_file: &CookieFile,
) -> (r: Result<String, Error>)
    ensures
        match cookie_choice(opt_view(explicit_cookie), opt_view(env_cookie), opt_string_view(cookie_file.contents)) {
            Some(c) => r matches Ok(s) && s@ == c,
            None => r matches Err(Error::CookieNotFound(m)) && m@ == cookie_not_found_message(cookie_file.path@),
        },
{
    if let Some(cookie) = explicit_cookie {
        return Ok(String::from_str(cookie));
    }
    if let Some(cookie) = env_cookie {
        return Ok(String::from_str(cookie));
    }
    match &cookie_file.contents {
        Some(contents) => Ok(trim(contents.as_str())),
        None => {
            let mut msg = String::from_str("Could not read ");
            msg.append(cookie_file.path.as_str());
            msg.append(". Provide --erlang-cookie or set ERLANG_COOKIE");
            Err(Error::CookieNotFound(msg))
        },
    }
}

/// An explicit cookie wins over the environment and the file; the
/// environment's wins over the file; with neither and no readable file,
/// resolution fails.
pub proof fn lemma_cookie_precedence(x: Seq<char>, y: Seq<char>, z: Option<Seq<char>>)
    ensures
        cookie_choice(Some(x), Some(y), z) == Some(x),
        cookie_choice(None, Some(y), z) == Some(y),
        cookie_choice(None, None, None) is None,
{
}

} // verus!

use crate::text::{decimal, push_decimal};
use vstd::prelude::*;
use vstd::string::*;

verus! {

/// Relies on `rand::Rng::random_range` over `10000..99999` on the thread's
/// generator: the number lies in that half-open range.
#[verifier::external_body]
fn random_suffix() -> (r: u32)
    ensures
        10000 <= r < 99999,
{
    rand::Rng::random_range(&mut rand::rng(), 10000..99999)
}

/// Relies on `hostname::get`: the local host's name, where the system gives one.
#[verifier::external_body]
fn local_hostname() -> (r: Option<String>) {
    match hostname::get() {
        Ok(h) => Some(h.to_string_lossy().into_owned()),
        Err(_) => None,
    }
}

/// The local node name for a suffix and a host: `ets_browser_<suffix>@<host>`.
pub open spec fn node_name_text(suffix: nat, host: Seq<char>) -> Seq<char> {
    "ets_browser_"@ + decimal(suffix) + "@"@ + host
}

/// The local node name for `suffix` on `host`, or on `localhost` where the
/// host is not known.
pub fn local_node_name(suffix: u32, host: Option<&str>) -> (r: String)
    ensures
        r@ == node_name_text(
            suffix as nat,
            match host {
                Some(h) => h@,
                None => "localhost"@,
            },
        ),
{
    let mut name = String::from_str("ets_browser_");
    push_decimal(&mut name, suffix as u64);
    name.append("@");
    match host {
        Some(h) => name.append(h),
        None => name.append("localhost"),
    }
    name
}

/// A fresh local node name: a random five-digit suffix keeps inspectors on
/// one host apart; a host that cannot be resolved falls back to `localhost`.
pub fn generate_local_node_name() -> (r: String)
    ensures
        exists|suffix: nat, host: Seq<char>|
            10000 <= suffix < 99999 && r@ == #[trigger] node_name_text(suffix, host),
{
    let suffix = random_suffix();
    let host = local_hostname();
    let r = match &host {
        Some(h) => local_node_name(suffix, Some(h.as_str())),
        None => local_node_name(suffix, None),
    };
    assert(r@ == node_name_text(suffix as nat, match host {
        Some(h) => h@,
        None => "localhost"@,
    }));
    r
}

} // verus!

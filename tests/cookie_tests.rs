use ets_lib::{get_erlang_cookie, CookieFile, Error};

fn unreadable() -> CookieFile {
    CookieFile { path: "/nonexistent/.erlang.cookie".to_string(), contents: None }
}

fn file_with(contents: &str) -> CookieFile {
    CookieFile { path: "/home/u/.erlang.cookie".to_string(), contents: Some(contents.to_string()) }
}

#[test]
fn test_explicit_cookie_takes_priority() {
    let result = get_erlang_cookie(Some("explicit_cookie"), Some("env_cookie"), &unreadable());
    assert_eq!(result.unwrap(), "explicit_cookie");
}

#[test]
fn test_env_cookie_used_when_no_explicit() {
    let result = get_erlang_cookie(None, Some("env_cookie"), &unreadable());
    assert_eq!(result.unwrap(), "env_cookie");
}

#[test]
fn test_explicit_cookie_preserves_whitespace() {
    let result = get_erlang_cookie(Some("  cookie_value  "), None, &unreadable());
    assert_eq!(result.unwrap(), "  cookie_value  ");
}

#[test]
fn test_env_cookie_used_as_is() {
    let result = get_erlang_cookie(None, Some("env_value"), &unreadable());
    assert_eq!(result.unwrap(), "env_value");
}

#[test]
fn precedence_explicit_over_env_over_file() {
    let file = file_with("Z");
    assert_eq!(get_erlang_cookie(Some("X"), Some("Y"), &file).unwrap(), "X");
    assert_eq!(get_erlang_cookie(None, Some("Y"), &file).unwrap(), "Y");
    assert_eq!(get_erlang_cookie(None, None, &file).unwrap(), "Z");
}

#[test]
fn file_cookie_is_trimmed() {
    let file = file_with("  secret\n");
    assert_eq!(get_erlang_cookie(None, None, &file).unwrap(), "secret");
}

#[test]
fn no_cookie_anywhere_fails_naming_the_path() {
    match get_erlang_cookie(None, None, &unreadable()) {
        Err(Error::CookieNotFound(m)) => {
            assert_eq!(
                m,
                "Could not read /nonexistent/.erlang.cookie. Provide --erlang-cookie or set ERLANG_COOKIE"
            );
        }
        other => panic!("unexpected: {:?}", other),
    }
}

use fileshare::auth::{auth_token, check_authorize, is_whitelisted};

#[test]
fn token_strips_basic_prefix() {
    assert_eq!(auth_token("Basic dXNlcjpwYXNz"), "dXNlcjpwYXNz");
    assert_eq!(auth_token("Bearer abc"), "Bearer abc");
}

#[test]
fn listed_token_is_authorized() {
    let users = "alice:token\n  dXNlcjpwYXNz  \r\nbob\n";
    assert!(check_authorize(Some("Basic dXNlcjpwYXNz"), Some(users)));
    assert!(is_whitelisted(users, "bob"));
}

#[test]
fn unlisted_token_is_refused() {
    let users = "alice:token\nbob\n";
    assert!(!check_authorize(Some("Basic carol"), Some(users)));
    assert!(!is_whitelisted(users, "bo"));
}

#[test]
fn missing_header_or_users_file_is_refused() {
    assert!(!check_authorize(None, Some("alice\n")));
    assert!(!check_authorize(Some("Basic alice"), None));
}

#[test]
fn empty_token_matches_only_a_blank_line() {
    assert!(!is_whitelisted("alice\n", ""));
    assert!(is_whitelisted("alice\n   \nbob", ""));
    assert!(!is_whitelisted("", ""));
}

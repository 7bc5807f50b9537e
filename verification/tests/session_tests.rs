use jwglxt::errors::{AuthError, FetchError};
use jwglxt::session::{
    extract_csrftoken, login_form, login_outcome, parse_public_key, schedule_form, term_code,
};
use jwglxt::Config;

#[test]
fn csrftoken_is_extracted_from_login_page() {
    let body = r#"<form><input name="csrftoken" value="abc-123"/></form>"#;
    assert_eq!(extract_csrftoken(body).unwrap(), "abc-123");
}

#[test]
fn csrftoken_missing_marker_fails() {
    let body = "<html>no token here</html>";
    assert_eq!(extract_csrftoken(body).unwrap_err(), AuthError::TokenNotFound);
}

#[test]
fn csrftoken_runs_to_end_without_closing_quote() {
    let body = "prefix name=\"csrftoken\" value=\"tail";
    assert_eq!(extract_csrftoken(body).unwrap(), "tail");
}

#[test]
fn csrftoken_takes_first_occurrence() {
    let body = "name=\"csrftoken\" value=\"one\" name=\"csrftoken\" value=\"two\"";
    assert_eq!(extract_csrftoken(body).unwrap(), "one");
}

#[test]
fn login_succeeds_only_on_marker() {
    // The decision reads the body alone, so an "error page" carrying the
    // marker counts as success and a clean page without it as failure.
    assert!(login_outcome("<li>修改密码</li>").is_ok());
    assert!(login_outcome("Internal Server Error 修改密码").is_ok());
    assert_eq!(
        login_outcome("<html>OK but not signed in</html>").unwrap_err(),
        AuthError::InvalidCredentials
    );
    assert_eq!(login_outcome("").unwrap_err(), AuthError::InvalidCredentials);
}

#[test]
fn login_form_repeats_encrypted_password() {
    let form = login_form("tok", "user", "CIPHER");
    assert_eq!(form.len(), 4);
    assert_eq!(form[0], ("csrftoken".to_string(), "tok".to_string()));
    assert_eq!(form[1], ("yhm".to_string(), "user".to_string()));
    assert_eq!(form[2], ("mm".to_string(), "CIPHER".to_string()));
    assert_eq!(form[3], ("mm".to_string(), "CIPHER".to_string()));
}

#[test]
fn term_codes_match_portal_internals() {
    assert_eq!(term_code(1).unwrap(), "3");
    assert_eq!(term_code(2).unwrap(), "12");
    assert_eq!(term_code(3).unwrap_err(), FetchError::InvalidTerm);
    assert_eq!(term_code(0).unwrap_err(), FetchError::InvalidTerm);
}

#[test]
fn schedule_form_carries_year_and_code() {
    let form = schedule_form(2021, 2).unwrap();
    assert_eq!(form.len(), 2);
    assert_eq!(form[0], ("xnm".to_string(), "2021".to_string()));
    assert_eq!(form[1], ("xqm".to_string(), "12".to_string()));
    assert_eq!(schedule_form(2021, 3).unwrap_err(), FetchError::InvalidTerm);
}

#[test]
fn public_key_fields_are_read() {
    let body = r#"{"modulus":"AM9QZ+Cw2Q==","exponent":"AQAB"}"#;
    let key = parse_public_key(body).unwrap();
    assert_eq!(key.modulus, "AM9QZ+Cw2Q==");
    assert_eq!(key.exponent, "AQAB");
}

#[test]
fn public_key_missing_field_fails() {
    assert_eq!(
        parse_public_key(r#"{"modulus":"AQAB"}"#).unwrap_err(),
        AuthError::KeyFieldMissing
    );
    assert_eq!(
        parse_public_key(r#"{"modulus":7,"exponent":"AQAB"}"#).unwrap_err(),
        AuthError::KeyFieldMissing
    );
    assert_eq!(parse_public_key("not json").unwrap_err(), AuthError::KeyFieldMissing);
}

#[test]
fn credentials_prefer_flags_over_environment() {
    let c = Config::resolve(
        Some("flag-user".to_string()),
        None,
        Some("env-user".to_string()),
        Some("env-pass".to_string()),
    );
    assert_eq!(c.username, "flag-user");
    assert_eq!(c.password, "env-pass");
    let c = Config::resolve(None, None, None, None);
    assert_eq!(c.username, "");
    assert_eq!(c.password, "");
}

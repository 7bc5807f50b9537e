use vstd::prelude::*;
use vstd::string::*;

use crate::errors::{AuthError, FetchError};
use crate::json::{json_str_field_of, json_string_field};
use crate::text::{dec_spec, find_from, has_sub, occurs_at, str_has, u32_to_string};

verus! {

// ---------------------------------------------------------------------------
// CSRF token extraction
// ---------------------------------------------------------------------------

/// The literal marker that precedes the CSRF token on the login page.
pub open spec fn csrf_marker() -> Seq<char> {
    "name=\"csrftoken\" value=\""@
}

/// The token extracted from the page `s` is `t`: the marker first occurs at
/// `i`, and `t` is everything after it up to the next quote (at `j`), or up
/// to the end of the page when no quote follows.
pub open spec fn token_extraction(s: Seq<char>, i: int, j: int, t: Seq<char>) -> bool {
    &&& occurs_at(s, csrf_marker(), i)
    &&& forall|k: int| 0 <= k < i ==> !occurs_at(s, csrf_marker(), k)
    &&& i + csrf_marker().len() <= j <= s.len()
    &&& forall|k: int| i + csrf_marker().len() <= k < j ==> s[k] != '"'
    &&& j == s.len() || s[j] == '"'
    &&& t == s.subrange(i + csrf_marker().len(), j)
}

/// The token `t` is what the CSRF scan of page `s` yields.
pub open spec fn is_extracted_token(s: Seq<char>, t: Seq<char>) -> bool {
    exists|i: int, j: int| token_extraction(s, i, j, t)
}

/// Scan a login page for the CSRF token: the quoted value that follows the
/// literal marker. The scan is brittle by design, the portal offering no
/// stable API; a page without the marker yields `TokenNotFound`.
pub fn extract_csrftoken(body: &str) -> (r: Result<String, AuthError>)
    ensures
        r is Ok <==> has_sub(body@, csrf_marker()),
        r matches Result::Ok(t) ==> is_extracted_token(body@, t@),
        r is Err ==> r == Result::<String, AuthError>::Err(AuthError::TokenNotFound),
{
    let marker = "name=\"csrftoken\" value=\"";
    let blen = body.unicode_len();
    match find_from(body, marker, 0) {
        Option::None => Result::Err(AuthError::TokenNotFound),
        Option::Some(i) => {
            let start = i + marker.unicode_len();
            let j = find_quote(body, start, blen);
            let token = body.substring_char(start, j).to_owned();
            proof {
                assert(token_extraction(body@, i as int, j as int, token@));
                assert(is_extracted_token(body@, token@));
            }
            Result::Ok(token)
        },
    }
}

/// The position of the first quote in `s` at or after `from`, or the length
/// of `s` when none follows.
fn find_quote(s: &str, from: usize, slen: usize) -> (j: usize)
    requires
        slen == s@.len(),
        from <= slen,
    ensures
        from <= j <= slen,
        forall|k: int| from <= k < j ==> s@[k] != '"',
        j == slen || s@[j as int] == '"',
{
    let mut j: usize = from;
    loop
        invariant
            slen == s@.len(),
            from <= j <= slen,
            forall|k: int| from <= k < j ==> s@[k] != '"',
        decreases slen - j,
    {
        if j == slen {
            return j;
        }
        if s.get_char(j) == '"' {
            return j;
        }
        j += 1;
    }
}

// ---------------------------------------------------------------------------
// Login outcome
// ---------------------------------------------------------------------------

/// The fragment that only the authenticated post-login page contains
/// (a "change password" menu entry).
pub open spec fn login_marker() -> Seq<char> {
    "\u{4fee}\u{6539}\u{5bc6}\u{7801}"@
}

/// Decide whether a login attempt succeeded, from the response body alone:
/// success is the presence of the authenticated-page marker, whatever the
/// HTTP status was; its absence is `InvalidCredentials`.
pub fn login_outcome(body: &str) -> (r: Result<(), AuthError>)
    ensures
        r is Ok <==> has_sub(body@, login_marker()),
        r is Err ==> r == Result::<(), AuthError>::Err(AuthError::InvalidCredentials),
{
    if str_has(body, "\u{4fee}\u{6539}\u{5bc6}\u{7801}") {
        Result::Ok(())
    } else {
        Result::Err(AuthError::InvalidCredentials)
    }
}

// ---------------------------------------------------------------------------
// Public key material
// ---------------------------------------------------------------------------

/// The RSA public key as the portal hands it out: base64-encoded big-endian
/// modulus and exponent. Ephemeral, fetched fresh per run.
#[derive(Debug)]
pub struct PublicKeyMaterial {
    pub modulus: String,
    pub exponent: String,
}

/// Read the public-key material out of the portal's JSON response: it
/// succeeds exactly when the body is JSON holding `modulus` and `exponent`
/// as strings, handing those strings back; anything else — no JSON, a
/// member absent or not a string — is `KeyFieldMissing`.
pub fn parse_public_key(body: &str) -> (r: Result<PublicKeyMaterial, AuthError>)
    ensures
        r is Ok <==> json_str_field_of(body@, "modulus"@) is Some && json_str_field_of(
            body@,
            "exponent"@,
        ) is Some,
        r matches Result::Ok(k) ==> Some(k.modulus@) == json_str_field_of(body@, "modulus"@)
            && Some(k.exponent@) == json_str_field_of(body@, "exponent"@),
        r is Err ==> r == Result::<PublicKeyMaterial, AuthError>::Err(AuthError::KeyFieldMissing),
{
    let modulus = match json_string_field(body, "modulus") {
        Option::Some(s) => s,
        Option::None => {
            return Result::Err(AuthError::KeyFieldMissing);
        },
    };
    let exponent = match json_string_field(body, "exponent") {
        Option::Some(s) => s,
        Option::None => {
            return Result::Err(AuthError::KeyFieldMissing);
        },
    };
    Result::Ok(PublicKeyMaterial { modulus, exponent })
}

// ---------------------------------------------------------------------------
// Form bodies
// ---------------------------------------------------------------------------

/// Build the login form: the CSRF token, the username under `yhm`, and the
/// encrypted password under `mm` twice with the identical value — the
/// portal's form validation requires the duplication, so it must never be
/// deduplicated.
pub fn login_form(csrftoken: &str, username: &str, encrypted_password: &str) -> (r: Vec<
    (String, String),
>)
    ensures
        r@.len() == 4,
        r@[0].0@ == "csrftoken"@ && r@[0].1@ == csrftoken@,
        r@[1].0@ == "yhm"@ && r@[1].1@ == username@,
        r@[2].0@ == "mm"@ && r@[2].1@ == encrypted_password@,
        r@[3].0@ == "mm"@ && r@[3].1@ == encrypted_password@,
{
    let mut form: Vec<(String, String)> = Vec::new();
    form.push(("csrftoken".to_owned(), csrftoken.to_owned()));
    form.push(("yhm".to_owned(), username.to_owned()));
    form.push(("mm".to_owned(), encrypted_password.to_owned()));
    form.push(("mm".to_owned(), encrypted_password.to_owned()));
    form
}

/// The portal's internal code for a term: term 1 is "3" and term 2 is "12".
pub fn term_code(term: u32) -> (r: Result<&'static str, FetchError>)
    ensures
        term == 1 ==> (r matches Result::Ok(c) && c@ == "3"@),
        term == 2 ==> (r matches Result::Ok(c) && c@ == "12"@),
        term != 1 && term != 2 ==> r == Result::<&'static str, FetchError>::Err(
            FetchError::InvalidTerm,
        ),
{
    match term {
        1 => Result::Ok("3"),
        2 => Result::Ok("12"),
        _ => Result::Err(FetchError::InvalidTerm),
    }
}

/// Build the schedule-query form, `xnm` the year and `xqm` the term's
/// internal code; a term other than 1 or 2 fails before any request is made.
pub fn schedule_form(year: u32, term: u32) -> (r: Result<Vec<(String, String)>, FetchError>)
    ensures
        match r {
            Result::Ok(f) => (term == 1 || term == 2) && f@.len() == 2 && f@[0].0@ == "xnm"@
                && f@[0].1@ == dec_spec(year as int) && f@[1].0@ == "xqm"@ && f@[1].1@ == (
            if term == 1 {
                "3"@
            } else {
                "12"@
            }),
            Result::Err(e) => term != 1 && term != 2 && e == FetchError::InvalidTerm,
        },
{
    let code = term_code(term)?;
    let mut form: Vec<(String, String)> = Vec::new();
    form.push(("xnm".to_owned(), u32_to_string(year)));
    form.push(("xqm".to_owned(), code.to_owned()));
    Result::Ok(form)
}

} // verus!

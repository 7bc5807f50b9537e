use vstd::prelude::*;

verus! {

/// What can go wrong while signing in to the portal.
#[derive(Debug, Clone, Copy, PartialEq, Eq, Structural)]
pub enum AuthError {
    /// The login page held no CSRF-token marker.
    TokenNotFound,
    /// The public-key response held no usable `modulus` or `exponent` field.
    KeyFieldMissing,
    /// The password could not be RSA-encrypted from the fetched key material.
    EncryptionError,
    /// The post-login page lacked the marker that only an authenticated
    /// session shows.
    InvalidCredentials,
}

/// What can go wrong while asking for the schedule.
#[derive(Debug, Clone, Copy, PartialEq, Eq, Structural)]
pub enum FetchError {
    /// The term was neither 1 nor 2; no request is made for such a term.
    InvalidTerm,
}

/// What can go wrong while turning the schedule response into calendar rows.
///
/// A malformed entry in the schedule list degrades to an all-blank
/// placeholder, and a field of an entry that fails to parse is fatal for the
/// whole export: of the two observed policies this library pins the fatal
/// one, so a placeholder entry ends the run with `BadPeriodRange`.
#[derive(Debug, Clone, Copy, PartialEq, Eq, Structural)]
pub enum TransformError {
    /// The response was not JSON, or its `kbList` field was missing or not an
    /// array.
    MalformedResponse,
    /// A period range was not of the form `a-b` with both slots in 1..=8.
    BadPeriodRange,
    /// A week range, its unit marker stripped, was not of the form `m-n`.
    BadWeekRange,
    /// A weekday was not a number in 1..=7.
    BadWeekday,
    /// A computed calendar date fell outside the supported range.
    DateOutOfRange,
}

} // verus!

//! A university class timetable, fetched from the campus web portal and
//! turned into a calendar-importable table.
//!
//! The library holds everything that can be decided from plain values: the
//! CSRF-token scrape of the login page, the RSA encryption of the password
//! from the portal's key material, the login form with its duplicated
//! password field, the login outcome read off the response body, the term
//! codes of the schedule query, and the expansion of each class entry into
//! one calendar row per week, with the eighteen week-marker rows behind
//! them. The HTTP round trips and the file on disk stay outside; they hand
//! the library response bodies and take rows back.

mod config;
pub mod crypto;
pub mod errors;
pub mod json;
pub mod schedule;
pub mod session;
pub mod text;

pub use config::Config;

//! Core of a session process orchestration engine.
//!
//! The library normalizes the line-oriented output of external command-line
//! agents into one canonical event schema, tracks live sessions in a registry
//! keyed by an evolving session identity, and decides how sessions are
//! started, continued, interrupted and replaced.  All I/O (spawning
//! processes, reading pipes, tailing files, killing process trees) is left to
//! a thin unverified shell around the library; every decision and every
//! transformation of data is made here, under contract.

pub mod context;
pub mod events;
pub mod json;
pub mod launcher;
pub mod openai;
pub mod pipe;
pub mod registry;
pub mod session;
pub mod sid;
pub mod tail;
pub mod terminate;
pub mod terminal;
pub mod transcript;

use vstd::prelude::*;

verus! {

/// Number of characters in the textual form of a freshly generated
/// placeholder session id (a hyphenated UUID).
pub const PLACEHOLDER_ID_LEN: usize = 36;

/// A lower-case hexadecimal digit.
pub open spec fn is_hex_lower(c: char) -> bool {
    ('0' <= c && c <= '9') || ('a' <= c && c <= 'f')
}

/// Relies on `uuid::Uuid::new_v4` and its `Display` impl: a version-4 UUID
/// formatted as five hyphen-separated groups of lower-case hexadecimal
/// digits, 36 characters in all, the hyphens at the four fixed positions.
/// The value is random, so nothing beyond its shape is promised.
#[verifier::external_body]
pub fn new_placeholder_id() -> (r: String)
    ensures
        r@.len() == PLACEHOLDER_ID_LEN as int,
        r@[8] == '-' && r@[13] == '-' && r@[18] == '-' && r@[23] == '-',
        forall|i: int|
            0 <= i < 36 && i != 8 && i != 13 && i != 18 && i != 23 ==> is_hex_lower(
                #[trigger] r@[i]),
{
    uuid::Uuid::new_v4().to_string()
}

} // verus!

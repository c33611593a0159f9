//! The error rows a PostgREST-style store answers with.

use vstd::prelude::*;

verus! {

/// A store-side failure as the proxy reports it: an SQLSTATE code and its
/// free-text companions.
pub struct SupabaseError {
    pub code: String,
    pub details: Option<String>,
    pub hint: Option<String>,
    pub message: Option<String>,
}

} // verus!

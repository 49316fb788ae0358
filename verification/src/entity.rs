//! The entity this library searches over: a candidate profile.

use vstd::prelude::*;

verus! {

/// A candidate profile, exactly as it is stored in the search index.
///
/// The identifier is unique within one index generation.  The batch
/// window (`batch_starts_at` ..= `batch_ends_at`) and the acceptance
/// flag govern visibility; `weight` is a tie-break priority used only
/// for ordering, never for filtering.  Timestamps are ISO-8601 strings
/// and are compared lexicographically.
#[derive(Clone, Debug)]
pub struct Talent {
    pub id: u32,
    pub accepted: bool,
    pub work_roles: Vec<String>,
    pub work_experience: String,
    pub work_locations: Vec<String>,
    pub work_authorization: String,
    pub skills: Vec<String>,
    pub summary: String,
    pub company_ids: Vec<u32>,
    pub batch_starts_at: String,
    pub batch_ends_at: String,
    pub added_to_batch_at: String,
    pub weight: i32,
    pub blocked_companies: Vec<u32>,
}

} // verus!

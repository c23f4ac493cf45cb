//! The batch records that the API lists, as plain values.

use vstd::prelude::*;

verus! {

/// How many requests of a batch there are, and how many of them finished.
#[derive(Debug, Clone, Copy, PartialEq, Eq, Structural)]
pub struct RequestCounts {
    pub total: u64,
    pub completed: u64,
    pub failed: u64,
}

/// One error that the API reports for a batch.
#[derive(Debug, Clone)]
pub struct BatchError {
    pub code: Option<String>,
    pub message: Option<String>,
    pub line: Option<i64>,
}

/// The list of errors of a batch.
#[derive(Debug, Clone)]
pub struct BatchErrors {
    pub data: Vec<BatchError>,
}

/// A batch job. Timestamps are seconds since the Unix epoch.
///
/// `metadata` holds the entries of the batch's metadata object, each value
/// as its JSON text, in the object's order; it is `None` where the metadata
/// is absent or is not an object.
#[derive(Debug, Clone)]
pub struct Batch {
    pub id: String,
    pub endpoint: String,
    pub status: String,
    pub input_file_id: Option<String>,
    pub output_file_id: Option<String>,
    pub error_file_id: Option<String>,
    pub created_at: i64,
    pub in_progress_at: Option<i64>,
    pub expires_at: Option<i64>,
    pub finalizing_at: Option<i64>,
    pub completed_at: Option<i64>,
    pub failed_at: Option<i64>,
    pub expired_at: Option<i64>,
    pub cancelling_at: Option<i64>,
    pub cancelled_at: Option<i64>,
    pub request_counts: Option<RequestCounts>,
    pub metadata: Option<Vec<(String, String)>>,
    pub errors: Option<BatchErrors>,
    pub completion_window: Option<String>,
}

} // verus!

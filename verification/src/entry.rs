//! What is known of one matched directory.

use vstd::prelude::*;
use crate::format::Timestamp;

verus! {

/// Where a directory stands in its deletion.
#[derive(Debug, Clone, PartialEq)]
pub enum DeletionStatus {
    Normal,
    Deleting,
    Deleted,
    Error(String),
}

/// Where a directory stands in the computation of its size.
#[derive(Debug, Clone, PartialEq)]
pub enum CalculationStatus {
    /// Waiting for a worker.
    NotStarted,
    /// A worker is walking the directory.
    Calculating,
    /// The size is final.
    Completed,
    /// The computation failed.
    Error(String),
}

/// What a discovery in progress reports.
#[derive(Debug, Clone)]
pub enum DiscoveryMessage {
    /// A matching directory, by its path.
    DirectoryFound(String),
    /// The walk is over.
    DiscoveryComplete,
    /// The walk could not be made.
    DiscoveryError(String),
}

/// A matched directory: its path, its size as far as known, when its parent
/// was last modified, and what the user and the workers have done with it.
#[derive(Debug, Clone, PartialEq)]
pub struct DirectoryInfo {
    pub path: String,
    /// Bytes; 0 until computed.
    pub size: u64,
    pub formatted_size: String,
    /// The modification time of the directory that holds this one.
    pub last_modified: Option<Timestamp>,
    pub formatted_last_modified: String,
    /// Chosen by the user for a batch operation.
    pub selected: bool,
    pub deletion_status: DeletionStatus,
    pub calculation_status: CalculationStatus,
    /// How long the size computation took, in milliseconds.
    pub calculation_time: Option<u64>,
}

impl DirectoryInfo {
    /// The entry as it is admitted: size unknown, nothing selected, nothing
    /// started.
    pub open spec fn is_fresh(&self, path: Seq<char>) -> bool {
        &&& self.path@ == path
        &&& self.size == 0
        &&& self.formatted_size@ == "Calculating…"@
        &&& self.last_modified is None
        &&& self.formatted_last_modified@ == "Unknown"@
        &&& !self.selected
        &&& self.deletion_status == DeletionStatus::Normal
        &&& self.calculation_status == CalculationStatus::NotStarted
        &&& self.calculation_time is None
    }

    /// A new entry for `path`, as discovery admits it.
    pub fn fresh(path: String) -> (entry: Self)
        ensures
            entry.is_fresh(path@),
    {
        DirectoryInfo {
            path,
            size: 0,
            formatted_size: "Calculating…".to_string(),
            last_modified: None,
            formatted_last_modified: "Unknown".to_string(),
            selected: false,
            deletion_status: DeletionStatus::Normal,
            calculation_status: CalculationStatus::NotStarted,
            calculation_time: None,
        }
    }
}

} // verus!

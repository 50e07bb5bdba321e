//! Bounds on what a repository may make the client download.

use vstd::prelude::*;

verus! {

/// Limits on the metadata that is fetched while a repository loads.
///
/// They keep a repository from feeding the client endless data. Set them
/// above what the repository can reasonably need, and low enough that the
/// data cannot hurt the system.
#[derive(Debug, Clone, Copy)]
pub struct Limits {
    /// The largest root metadata file that is accepted, in bytes.
    pub max_root_size: u64,
    /// The largest targets metadata file that is accepted, in bytes, where
    /// the snapshot does not give its length.
    pub max_targets_size: u64,
    /// The largest timestamp metadata file that is accepted, in bytes.
    pub max_timestamp_size: u64,
    /// The number of root metadata updates that one load may follow.
    pub max_root_updates: u64,
}

/// The limits that apply where none are set: one MiB for a root file and
/// for the timestamp file, ten MiB for a targets file, and 1024 root
/// updates.
pub open spec fn default_limits() -> Limits {
    Limits {
        max_root_size: 1_048_576,
        max_targets_size: 10_485_760,
        max_timestamp_size: 1_048_576,
        max_root_updates: 1024,
    }
}

impl Default for Limits {
    /// One MiB for a root file and for the timestamp file, ten MiB for a
    /// targets file, and 1024 root updates.
    fn default() -> (r: Self)
        ensures
            r == default_limits(),
    {
        Limits {
            max_root_size: 1024 * 1024,
            max_targets_size: 1024 * 1024 * 10,
            max_timestamp_size: 1024 * 1024,
            max_root_updates: 1024,
        }
    }
}

} // verus!

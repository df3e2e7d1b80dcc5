use vstd::prelude::*;
use vstd::string::*;

verus! {

/// Keyed store of point-in-time strategy snapshots.  The store only
/// remembers where snapshots live; reading and writing them is I/O done
/// at the process boundary, which must overwrite whole blobs and report
/// a missing key as no value.
#[derive(Debug, Clone)]
pub struct SnapshotStore {
    pub path: String,
}

impl SnapshotStore {
    pub fn new(path: &str) -> (r: Self)
        ensures
            r.path@ == path@,
    {
        SnapshotStore { path: path.to_owned() }
    }
}

/// Append-only audit log of timestamp-tagged records.  The running
/// process never reads it back; appends are best-effort and a failed
/// append never rolls back the state change that triggered it.
#[derive(Debug, Clone)]
pub struct Journal {
    pub path: String,
}

impl Journal {
    pub fn new(path: &str) -> (r: Self)
        ensures
            r.path@ == path@,
    {
        Journal { path: path.to_owned() }
    }
}

} // verus!

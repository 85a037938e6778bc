//! Snapshot pipeline: an append-only store of snapshots, at most one per
//! library and version, diffs between stored versions, and rendering.

use vstd::prelude::*;
use crate::json::parsed_json;
use crate::layout::{forest_fits, is_forest_layout, layout_units, LayoutNode};
use crate::models::library::Library;
use crate::models::version::{diff_report, diff_snapshots, Snapshot};

verus! {

/// Why a pipeline request failed.
#[derive(Debug, Clone, Copy, PartialEq, Eq, Structural)]
pub enum PipelineError {
    /// No snapshot of the library at this version.
    VersionNotFound { library_id: i64, version: i64 },
    /// A snapshot of the library at this version already exists.
    DuplicateVersion { library_id: i64, version: i64 },
}

/// Whether some snapshot of `s` is of `library_id` at `version`.
pub open spec fn has_version(s: Seq<Snapshot>, library_id: i64, version: i64) -> bool {
    exists|i: int| 0 <= i < s.len() && (#[trigger] s[i]).library_id == library_id && s[i].version == version
}

/// No two snapshots share a library and a version.
pub open spec fn versions_unique(s: Seq<Snapshot>) -> bool {
    forall|i: int, j: int|
        0 <= i < j < s.len() ==> !((#[trigger] s[i]).library_id == (#[trigger] s[j]).library_id
            && s[i].version == s[j].version)
}

/// Snapshots in the order they were committed.
pub struct SnapshotStore {
    snapshots: Vec<Snapshot>,
}

impl SnapshotStore {
    pub closed spec fn contents(&self) -> Seq<Snapshot> {
        self.snapshots@
    }

    /// The store's invariant: at most one snapshot per library and version.
    pub closed spec fn well_formed(&self) -> bool {
        versions_unique(self.snapshots@)
    }

    /// An empty store.
    pub fn new() -> (r: SnapshotStore)
        ensures
            r.well_formed(),
            r.contents().len() == 0,
    {
        SnapshotStore { snapshots: Vec::new() }
    }

    /// Index of the snapshot of `library_id` at `version`, if stored.
    fn find(&self, library_id: i64, version: i64) -> (r: Option<usize>)
        ensures
            match r {
                Some(i) => i < self.contents().len() && self.contents()[i as int].library_id == library_id
                    && self.contents()[i as int].version == version,
                None => !has_version(self.contents(), library_id, version),
            },
    {
        let mut i: usize = 0;
        while i < self.snapshots.len()
            invariant
                i <= self.snapshots@.len(),
                forall|j: int|
                    0 <= j < i ==> !((#[trigger] self.snapshots@[j]).library_id == library_id
                        && self.snapshots@[j].version == version),
            decreases self.snapshots@.len() - i,
        {
            if self.snapshots[i].library_id == library_id && self.snapshots[i].version == version {
                return Some(i);
            }
            i = i + 1;
        }
        None
    }

    /// Appends a snapshot, unless one of the same library and version is
    /// already stored.
    pub fn commit(&mut self, snapshot: Snapshot) -> (r: Result<(), PipelineError>)
        requires
            old(self).well_formed(),
        ensures
            final(self).well_formed(),
            has_version(old(self).contents(), snapshot.library_id, snapshot.version) ==> r == Err::<(), PipelineError>(
                PipelineError::DuplicateVersion { library_id: snapshot.library_id, version: snapshot.version },
            ) && final(self).contents() == old(self).contents(),
            !has_version(old(self).contents(), snapshot.library_id, snapshot.version) ==> r is Ok
                && final(self).contents() == old(self).contents().push(snapshot),
    {
        let library_id = snapshot.library_id;
        let version = snapshot.version;
        match self.find(library_id, version) {
            Some(_) => Err(PipelineError::DuplicateVersion { library_id, version }),
            None => {
                self.snapshots.push(snapshot);
                assert(versions_unique(self.snapshots@));
                Ok(())
            },
        }
    }

    /// The snapshot of `library_id` at `version`, if stored.
    pub fn get(&self, library_id: i64, version: i64) -> (r: Option<&Snapshot>)
        requires
            self.well_formed(),
        ensures
            has_version(self.contents(), library_id, version) <==> r is Some,
            r matches Some(s) ==> (s.library_id == library_id && s.version == version
                && self.contents().contains(*s)),
    {
        match self.find(library_id, version) {
            Some(i) => Some(&self.snapshots[i]),
            None => None,
        }
    }

    /// The report on what changed in `library_id` from version `v1` to `v2`.
    pub fn diff(&self, library_id: i64, v1: i64, v2: i64) -> (r: Result<String, PipelineError>)
        requires
            self.well_formed(),
        ensures
            !has_version(self.contents(), library_id, v1) ==> r == Err::<String, PipelineError>(
                PipelineError::VersionNotFound { library_id, version: v1 },
            ),
            has_version(self.contents(), library_id, v1) && !has_version(self.contents(), library_id, v2)
                ==> r == Err::<String, PipelineError>(PipelineError::VersionNotFound { library_id, version: v2 }),
            has_version(self.contents(), library_id, v1) && has_version(self.contents(), library_id, v2)
                ==> exists|a: Snapshot, b: Snapshot|
                #![trigger self.contents().contains(a), self.contents().contains(b)]
                self.contents().contains(a) && self.contents().contains(b) && a.library_id == library_id
                    && a.version == v1 && b.library_id == library_id && b.version == v2 && (r matches Ok(t)
                    && t@ == diff_report(v1, v2, a.data@ == b.data@, parsed_json(a.data@), parsed_json(b.data@))),
    {
        match self.get(library_id, v1) {
            None => Err(PipelineError::VersionNotFound { library_id, version: v1 }),
            Some(a) => match self.get(library_id, v2) {
                None => Err(PipelineError::VersionNotFound { library_id, version: v2 }),
                Some(b) => Ok(diff_snapshots(a, b)),
            },
        }
    }
}

/// The layout of a library's current units.
pub fn render(library: &Library) -> (r: Vec<LayoutNode>)
    requires
        forest_fits(library.units@),
    ensures
        is_forest_layout(library.units@, r@),
{
    layout_units(&library.units)
}

} // verus!

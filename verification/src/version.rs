//! The committed version descriptor: what the cluster's version authority
//! hands to a node whenever the durable state advances.
use std::collections::HashMap;
use vstd::prelude::*;

verus! {

broadcast use vstd::std_specs::hash::group_hash_axioms;

/// A logical timestamp that identifies one write snapshot.
pub type HummockEpoch = u64;

/// The identifier of a committed version.
pub type HummockVersionId = u64;

/// The identifier of a compaction group.
pub type CompactionGroupId = u64;

/// The compaction group that state is written to unless told otherwise.
pub const DEFAULT_COMPACTION_GROUP: CompactionGroupId = 2;

/// One sorted-string table of a level.
#[derive(Clone, Debug, PartialEq, Eq)]
pub struct SstableInfo {
    pub id: u64,
    pub file_size: u64,
}

/// One level of the LSM tree.
#[derive(Clone, Debug, PartialEq, Eq)]
pub struct Level {
    pub level_idx: u32,
    pub table_infos: Vec<SstableInfo>,
    pub total_file_size: u64,
}

/// The levels of one compaction group, from the top level down.
#[derive(Clone, Debug, PartialEq, Eq)]
pub struct Levels {
    pub levels: Vec<Level>,
}

/// A committed version: everything written at or before
/// `max_committed_epoch` is durable and is found in `levels`.
#[derive(Clone, Debug, PartialEq, Eq)]
pub struct HummockVersion {
    pub id: HummockVersionId,
    pub levels: HashMap<CompactionGroupId, Levels>,
    pub max_committed_epoch: HummockEpoch,
    pub safe_epoch: HummockEpoch,
}

impl HummockVersion {
    /// Whether the version has levels for the compaction group `id`.
    pub open spec fn has_compaction_group(self, id: CompactionGroupId) -> bool {
        self.levels@.contains_key(id)
    }

    /// The levels of the compaction group `id`.
    pub open spec fn compaction_group_levels(self, id: CompactionGroupId) -> Vec<Level>
        recommends
            self.has_compaction_group(id),
    {
        self.levels@[id].levels
    }

    /// Says whether the version has levels for the compaction group `id`.
    pub fn contains_compaction_group(&self, id: CompactionGroupId) -> (found: bool)
        ensures
            found == self.has_compaction_group(id),
    {
        self.levels.contains_key(&id)
    }

    /// The levels of the compaction group `id`, which the version must have.
    pub fn get_compaction_group_levels(&self, id: CompactionGroupId) -> (levels: &Vec<Level>)
        requires
            self.has_compaction_group(id),
        ensures
            *levels == self.compaction_group_levels(id),
    {
        match self.levels.get(&id) {
            Some(group) => &group.levels,
            None => {
                proof {
                    assert(false);
                }
                unreached()
            },
        }
    }
}

} // verus!

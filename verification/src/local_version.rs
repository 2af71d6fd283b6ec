//! The local version of a node: the pinned committed version, and one shared
//! write buffer for each epoch that has been written to and is not committed.
use crate::shared_buffer::{OrderIndex, SharedBuffer, UploadTaskPayload, UploadTaskType};
use crate::sync::{
    buffers_in_range, clone_unpin_sender, lists_range, new_buffer_lock, read_guard_rwlock,
    read_lock_buffer, read_lock_local_version, retain_uncommitted, same_channel, send_unpin,
    uncommitted, write_lock_buffer, SharedBufferHandle, SharedBufferReadGuard,
};
use crate::version::{
    HummockEpoch, HummockVersion, HummockVersionId, Level, DEFAULT_COMPACTION_GROUP,
};
use parking_lot::lock_api::RwLock;
use parking_lot::RawRwLock;
use std::collections::BTreeMap;
use std::sync::Arc;
use tokio::sync::mpsc::UnboundedSender;
use vstd::prelude::*;

verus! {

/// A hold on one committed version. When the last holder lets go, the
/// version's id is sent on the unpin channel, so that the version authority
/// learns that this node no longer reads from the version.
#[derive(Debug)]
pub struct PinnedVersion {
    version: HummockVersion,
    unpin_worker_tx: UnboundedSender<HummockVersionId>,
}

impl View for PinnedVersion {
    type V = HummockVersion;

    closed spec fn view(&self) -> HummockVersion {
        self.version
    }
}

impl Drop for PinnedVersion {
    /// Sends the version's id to the unpin worker. Nobody is left to act on a
    /// failure to send, so none is reported.
    fn drop(&mut self)
        opens_invariants none
        no_unwind
    {
        send_unpin(&self.unpin_worker_tx, self.version.id);
    }
}

impl PinnedVersion {
    /// The sender on which the version's id leaves when the hold ends.
    pub closed spec fn unpin_channel(self) -> UnboundedSender<HummockVersionId> {
        self.unpin_worker_tx
    }

    fn new(version: HummockVersion, unpin_worker_tx: UnboundedSender<HummockVersionId>) -> (pinned:
        PinnedVersion)
        ensures
            pinned@ == version,
            pinned.unpin_channel() == unpin_worker_tx,
    {
        PinnedVersion { version, unpin_worker_tx }
    }

    /// The id of the version.
    pub fn id(&self) -> (id: HummockVersionId)
        ensures
            id == self@.id,
    {
        self.version.id
    }

    /// The levels of the default compaction group, which the version must have.
    pub fn levels(&self) -> (levels: &Vec<Level>)
        requires
            self@.has_compaction_group(DEFAULT_COMPACTION_GROUP),
        ensures
            *levels == self@.compaction_group_levels(DEFAULT_COMPACTION_GROUP),
    {
        self.version.get_compaction_group_levels(DEFAULT_COMPACTION_GROUP)
    }

    /// The epoch up to which, inclusively, the version holds every write.
    pub fn max_committed_epoch(&self) -> (epoch: HummockEpoch)
        ensures
            epoch == self@.max_committed_epoch,
    {
        self.version.max_committed_epoch
    }

    /// The epoch below which history may have been collected.
    pub fn safe_epoch(&self) -> (epoch: HummockEpoch)
        ensures
            epoch == self@.safe_epoch,
    {
        self.version.safe_epoch
    }

    /// The version itself.
    pub fn version(&self) -> (version: &HummockVersion)
        ensures
            *version == self@,
    {
        &self.version
    }
}

/// The epochs of `epochs` that lie above `committed` and at or below
/// `read_epoch`, from the newest down to the oldest.
pub open spec fn read_window(epochs: Set<HummockEpoch>, committed: int, read_epoch: int) -> Seq<
    HummockEpoch,
>
    decreases read_epoch - committed,
{
    if read_epoch <= committed {
        Seq::empty()
    } else if epochs.contains(read_epoch as HummockEpoch) {
        seq![read_epoch as HummockEpoch] + read_window(epochs, committed, read_epoch - 1)
    } else {
        read_window(epochs, committed, read_epoch - 1)
    }
}

/// Whether each epoch of `epochs` is newer than all that follow it.
pub open spec fn strictly_descending(epochs: Seq<HummockEpoch>) -> bool {
    forall|i: int, j: int|
        #![trigger epochs[i], epochs[j]]
        0 <= i < j < epochs.len() ==> epochs[i] > epochs[j]
}

/// What a read at one epoch looks at: the committed version, and over it the
/// buffers of the uncommitted epochs up to the read epoch, each locked for
/// reading, the newest epoch first.
pub struct ReadVersion {
    /// The buffers, by descending epoch.
    pub shared_buffer: Vec<SharedBufferReadGuard>,
    pub pinned_version: Arc<PinnedVersion>,
}

impl ReadVersion {
    /// Whether this is the read at `read_epoch` of the state `seen`: it holds
    /// the version that `seen` pins and, in the order of the read window,
    /// the locks of exactly the buffers of `seen` in that window.
    pub open spec fn is_read_of(self, seen: LocalVersion, read_epoch: HummockEpoch) -> bool {
        &&& *self.pinned_version == seen.pinned()
        &&& self.shared_buffer@.len() == seen.read_epochs(read_epoch).len()
        &&& forall|i: int|
            #![trigger self.shared_buffer@[i]]
            0 <= i < self.shared_buffer@.len() ==> read_guard_rwlock(self.shared_buffer@[i])
                == seen.buffers()[seen.read_epochs(read_epoch)[i]]
    }

    /// The buffer at position `index`, the newest being at 0.
    pub fn buffer(&self, index: usize) -> (buffer: Option<&SharedBuffer>)
        ensures
            buffer is Some <==> index < self.shared_buffer@.len(),
    {
        if index < self.shared_buffer.len() {
            Some(self.shared_buffer[index].buffer())
        } else {
            None
        }
    }
}

/// The version state of one node.
#[derive(Debug)]
pub struct LocalVersion {
    shared_buffer: BTreeMap<HummockEpoch, SharedBufferHandle>,
    pinned_version: Arc<PinnedVersion>,
}

impl LocalVersion {
    /// The buffers, by epoch.
    pub closed spec fn buffers(self) -> Map<HummockEpoch, SharedBufferHandle> {
        self.shared_buffer@
    }

    /// The pinned version.
    pub closed spec fn pinned(self) -> PinnedVersion {
        *self.pinned_version
    }

    /// The epoch up to which the pinned version is committed.
    pub open spec fn committed_epoch(self) -> HummockEpoch {
        self.pinned()@.max_committed_epoch
    }

    /// Every buffer belongs to an epoch that the pinned version has not committed.
    pub open spec fn buffers_are_uncommitted(self) -> bool {
        forall|epoch: HummockEpoch| #[trigger]
            self.buffers().contains_key(epoch) ==> epoch > self.committed_epoch()
    }

    /// The epochs that a read at `read_epoch` takes buffers from, newest first.
    pub open spec fn read_epochs(self, read_epoch: HummockEpoch) -> Seq<HummockEpoch> {
        read_window(self.buffers().dom(), self.committed_epoch() as int, read_epoch as int)
    }

    /// The buffers that a read at `read_epoch` looks at, newest epoch first.
    pub open spec fn read_buffers(self, read_epoch: HummockEpoch) -> Seq<SharedBufferHandle> {
        self.read_epochs(read_epoch).map_values(|epoch: HummockEpoch| self.buffers()[epoch])
    }

    /// Whether `after` and `handle` are what asking `before` for the buffer
    /// of `epoch` leaves and returns: the buffer that is there, with nothing
    /// changed, or else a new one, added under `epoch`.
    pub open spec fn gets_or_creates(
        before: LocalVersion,
        epoch: HummockEpoch,
        after: LocalVersion,
        handle: SharedBufferHandle,
    ) -> bool {
        &&& after.pinned() == before.pinned()
        &&& if before.buffers().contains_key(epoch) {
            &&& after.buffers() == before.buffers()
            &&& handle == before.buffers()[epoch]
        } else {
            after.buffers() == before.buffers().insert(epoch, handle)
        }
    }

    /// Whether `after` is what pinning `version` makes of `before`: `version`
    /// is pinned, on the channel of the version pinned before, and the buffers
    /// are those of `before`, without the epochs that `version` commits if it
    /// is committed further than the version pinned before.
    pub open spec fn pins(before: LocalVersion, version: HummockVersion, after: LocalVersion) -> bool {
        &&& after.pinned()@ == version
        &&& same_channel(before.pinned().unpin_channel(), after.pinned().unpin_channel())
        &&& after.buffers() == if before.committed_epoch() < version.max_committed_epoch {
            uncommitted(before.buffers(), version.max_committed_epoch)
        } else {
            before.buffers()
        }
    }

    /// A local version that pins `version`, with no buffer.
    pub fn new(version: HummockVersion, unpin_worker_tx: UnboundedSender<HummockVersionId>) -> (local:
        Self)
        ensures
            local.buffers() == Map::<HummockEpoch, SharedBufferHandle>::empty(),
            local.pinned()@ == version,
            local.pinned().unpin_channel() == unpin_worker_tx,
            local.buffers_are_uncommitted(),
    {
        LocalVersion {
            shared_buffer: BTreeMap::new(),
            pinned_version: Arc::new(PinnedVersion::new(version, unpin_worker_tx)),
        }
    }

    /// The pinned version.
    pub fn pinned_version(&self) -> (pinned: &Arc<PinnedVersion>)
        ensures
            **pinned == self.pinned(),
    {
        &self.pinned_version
    }

    /// The buffer of `epoch`, if there is one.
    pub fn get_shared_buffer(&self, epoch: HummockEpoch) -> (found: Option<&SharedBufferHandle>)
        ensures
            match found {
                Some(handle) => self.buffers().contains_key(epoch) && *handle
                    == self.buffers()[epoch],
                None => !self.buffers().contains_key(epoch),
            },
    {
        self.shared_buffer.get(&epoch)
    }

    /// All buffers with their epochs, by ascending epoch.
    pub fn iter_shared_buffer(&self) -> (entries: Vec<(HummockEpoch, SharedBufferHandle)>)
        ensures
            lists_range(entries@, self.buffers(), 0, u64::MAX),
    {
        buffers_in_range(&self.shared_buffer, 0, u64::MAX)
    }

    /// The buffer of `epoch`; a new, empty one is added if there is none.
    pub fn new_shared_buffer(&mut self, epoch: HummockEpoch) -> (handle: SharedBufferHandle)
        ensures
            Self::gets_or_creates(*old(self), epoch, *final(self), handle),
            old(self).buffers_are_uncommitted() && epoch > old(self).committed_epoch()
                ==> final(self).buffers_are_uncommitted(),
    {
        match self.shared_buffer.get(&epoch) {
            Some(handle) => {
                return handle.clone();
            },
            None => {},
        }
        let handle: SharedBufferHandle = Arc::new(new_buffer_lock(SharedBuffer::new()));
        self.shared_buffer.insert(epoch, handle.clone());
        handle
    }

    /// Pins `new_pinned_version` in place of the version pinned so far. If
    /// the new version is committed further than the old one, the buffers of
    /// the epochs that it commits are dropped.
    pub fn set_pinned_version(&mut self, new_pinned_version: HummockVersion)
        ensures
            Self::pins(*old(self), new_pinned_version, *final(self)),
            old(self).buffers_are_uncommitted() ==> final(self).buffers_are_uncommitted(),
    {
        if self.pinned_version.max_committed_epoch() < new_pinned_version.max_committed_epoch {
            retain_uncommitted(&mut self.shared_buffer, new_pinned_version.max_committed_epoch);
        }
        let unpin_worker_tx = clone_unpin_sender(&self.pinned_version.unpin_worker_tx);
        self.pinned_version = Arc::new(PinnedVersion::new(new_pinned_version, unpin_worker_tx));
    }

    /// What a read at `read_epoch` takes from this state: the pinned version,
    /// and the buffers of the epochs above its committed epoch up to
    /// `read_epoch`, the newest first. No buffer is locked yet.
    pub fn snapshot(&self, read_epoch: HummockEpoch) -> (taken: (
        Arc<PinnedVersion>,
        Vec<SharedBufferHandle>,
    ))
        ensures
            *taken.0 == self.pinned(),
            taken.1@ == self.read_buffers(read_epoch),
            read_epoch <= self.committed_epoch() ==> taken.1@.len() == 0,
    {
        let committed: HummockEpoch = self.pinned_version.max_committed_epoch();
        let pinned_version = self.pinned_version.clone();
        let mut handles: Vec<SharedBufferHandle> = Vec::new();
        if read_epoch > committed {
            let entries = buffers_in_range(&self.shared_buffer, committed + 1, read_epoch);
            proof {
                lemma_window_of_range(
                    entries@,
                    self.buffers(),
                    committed as int,
                    read_epoch as int,
                );
            }
            let ghost window = self.read_epochs(read_epoch);
            let mut left: usize = entries.len();
            while left > 0
                invariant
                    left <= entries.len(),
                    window.len() == entries.len(),
                    forall|i: int|
                        #![trigger window[i]]
                        0 <= i < window.len() ==> window[i] == entries@[window.len() - 1 - i].0,
                    lists_range(entries@, self.buffers(), (committed + 1) as u64, read_epoch),
                    handles@.len() == entries.len() - left,
                    forall|i: int|
                        #![trigger handles@[i]]
                        0 <= i < handles@.len() ==> handles@[i] == self.buffers()[window[i]],
                decreases left,
            {
                left -= 1;
                handles.push(entries[left].1.clone());
            }
            assert(handles@ =~= self.read_buffers(read_epoch));
        } else {
            assert(handles@ =~= self.read_buffers(read_epoch));
        }
        (pinned_version, handles)
    }

    /// Reads the state in `this` at `read_epoch`.
    ///
    /// The lock on `this` is held only while the pinned version and the
    /// buffer handles are copied; each buffer is locked after it was
    /// released, so a read never holds up writers of other epochs.
    pub fn read_version(this: &RwLock<RawRwLock, LocalVersion>, read_epoch: HummockEpoch) -> (read:
        ReadVersion)
        ensures
            exists|seen: LocalVersion| read.is_read_of(seen, read_epoch),
            read_epoch <= read.pinned_version@.max_committed_epoch ==> read.shared_buffer@.len()
                == 0,
    {
        let ghost seen: LocalVersion;
        let (pinned_version, handles) = {
            let guard = read_lock_local_version(this);
            let local_version = guard.local_version();
            proof {
                seen = *local_version;
            }
            local_version.snapshot(read_epoch)
        };
        let mut shared_buffer: Vec<SharedBufferReadGuard> = Vec::new();
        let mut i: usize = 0;
        while i < handles.len()
            invariant
                i <= handles.len(),
                shared_buffer@.len() == i,
                forall|j: int|
                    #![trigger shared_buffer@[j]]
                    0 <= j < i ==> read_guard_rwlock(shared_buffer@[j]) == handles@[j],
            decreases handles.len() - i,
        {
            shared_buffer.push(read_lock_buffer(&handles[i]));
            i += 1;
        }
        let read = ReadVersion { shared_buffer, pinned_version };
        assert(read.is_read_of(seen, read_epoch));
        read
    }

    /// Cuts an upload task from the buffer of `epoch`, holding its lock for
    /// writing meanwhile. Without a buffer for `epoch` there is nothing to
    /// upload.
    pub fn new_upload_task(&self, epoch: HummockEpoch, task_type: UploadTaskType) -> (task: Option<
        (OrderIndex, UploadTaskPayload),
    >)
        ensures
            !self.buffers().contains_key(epoch) ==> task is None,
            task matches Some((_, payload)) ==> payload@.len() > 0,
    {
        match self.shared_buffer.get(&epoch) {
            Some(handle) => {
                let mut guard = write_lock_buffer(&**handle);
                let buffer = guard.buffer_mut();
                buffer.new_upload_task(task_type)
            },
            None => None,
        }
    }
}

impl Clone for LocalVersion {
    fn clone(&self) -> (copy: Self)
        ensures
            copy.buffers() == self.buffers(),
            copy.pinned() == self.pinned(),
    {
        LocalVersion {
            shared_buffer: self.shared_buffer.clone(),
            pinned_version: self.pinned_version.clone(),
        }
    }
}

/// A read takes exactly the epochs that have a buffer and lie above the
/// committed epoch and at or below the read epoch, each once, the newest
/// first.
pub proof fn lemma_read_window_is_exact(epochs: Set<HummockEpoch>, committed: int, read_epoch: int)
    requires
        0 <= committed,
        read_epoch <= u64::MAX,
    ensures
        forall|epoch: HummockEpoch|
            #[trigger] read_window(epochs, committed, read_epoch).contains(epoch)
                <==> epochs.contains(epoch) && committed < epoch <= read_epoch,
        strictly_descending(read_window(epochs, committed, read_epoch)),
    decreases read_epoch - committed,
{
    let window = read_window(epochs, committed, read_epoch);
    if read_epoch > committed {
        let below = read_window(epochs, committed, read_epoch - 1);
        lemma_read_window_is_exact(epochs, committed, read_epoch - 1);
        let top = read_epoch as HummockEpoch;
        if epochs.contains(top) {
            assert(window == seq![top] + below);
            assert(window[0] == top);
            assert forall|epoch: HummockEpoch| window.contains(epoch) <==> epochs.contains(epoch)
                && committed < epoch <= read_epoch by {
                if window.contains(epoch) {
                    let i = choose|i: int| 0 <= i < window.len() && window[i] == epoch;
                    if i > 0 {
                        assert(below[i - 1] == epoch);
                        assert(below.contains(epoch));
                    }
                }
                if epochs.contains(epoch) && committed < epoch <= read_epoch {
                    if epoch == top {
                        assert(window[0] == epoch);
                    } else {
                        assert(below.contains(epoch));
                        let i = choose|i: int| 0 <= i < below.len() && below[i] == epoch;
                        assert(window[i + 1] == epoch);
                    }
                }
            }
            assert forall|i: int, j: int|
                #![trigger window[i], window[j]]
                0 <= i < j < window.len() implies window[i] > window[j] by {
                assert(below[j - 1] == window[j]);
                assert(below.contains(window[j]));
                if i > 0 {
                    assert(below[i - 1] == window[i]);
                    assert(below[i - 1] > below[j - 1]);
                }
            }
        }
    }
}

/// A read of any state at any epoch holds the version pinned in that state
/// and the buffers of exactly the epochs above its committed epoch up to the
/// read epoch, by strictly descending epoch.
pub proof fn lemma_read_is_consistent(state: LocalVersion, read_epoch: HummockEpoch)
    ensures
        state.read_buffers(read_epoch).len() == state.read_epochs(read_epoch).len(),
        forall|i: int|
            0 <= i < state.read_epochs(read_epoch).len() ==> #[trigger] state.read_buffers(
                read_epoch,
            )[i] == state.buffers()[state.read_epochs(read_epoch)[i]],
        forall|epoch: HummockEpoch|
            #[trigger] state.read_epochs(read_epoch).contains(epoch)
                <==> state.buffers().contains_key(epoch) && state.committed_epoch() < epoch
                <= read_epoch,
        strictly_descending(state.read_epochs(read_epoch)),
{
    lemma_read_window_is_exact(
        state.buffers().dom(),
        state.committed_epoch() as int,
        read_epoch as int,
    );
}

/// A read at or below the committed epoch takes no buffer.
pub proof fn lemma_read_of_committed_epoch_takes_no_buffer(
    state: LocalVersion,
    read_epoch: HummockEpoch,
)
    requires
        read_epoch <= state.committed_epoch(),
    ensures
        state.read_epochs(read_epoch) == Seq::<HummockEpoch>::empty(),
        state.read_buffers(read_epoch) == Seq::<SharedBufferHandle>::empty(),
{
    assert(state.read_buffers(read_epoch) =~= Seq::<SharedBufferHandle>::empty());
}

/// Once a version that is committed further than the one before is pinned,
/// no epoch that it commits has a buffer, and every later epoch keeps its own.
pub proof fn lemma_committed_buffers_are_pruned(
    before: LocalVersion,
    version: HummockVersion,
    after: LocalVersion,
)
    requires
        LocalVersion::pins(before, version, after),
        version.max_committed_epoch > before.committed_epoch(),
    ensures
        forall|epoch: HummockEpoch|
            epoch <= version.max_committed_epoch ==> !after.buffers().contains_key(epoch),
        forall|epoch: HummockEpoch|
            epoch > version.max_committed_epoch && before.buffers().contains_key(epoch) ==> (
            #[trigger] after.buffers().contains_key(epoch)) && after.buffers()[epoch]
                == before.buffers()[epoch],
        after.buffers_are_uncommitted(),
{
}

/// Asking twice for the buffer of one epoch returns the same buffer both
/// times, and the second call changes nothing.
pub proof fn lemma_new_shared_buffer_is_idempotent(
    before: LocalVersion,
    between: LocalVersion,
    after: LocalVersion,
    epoch: HummockEpoch,
    first: SharedBufferHandle,
    second: SharedBufferHandle,
)
    requires
        LocalVersion::gets_or_creates(before, epoch, between, first),
        LocalVersion::gets_or_creates(between, epoch, after, second),
    ensures
        second == first,
        after.buffers() == between.buffers(),
        after.pinned() == between.pinned(),
{
}

/// A list of the buffers in `committed + 1 ..= read_epoch` by ascending
/// epoch is the read window read backwards.
proof fn lemma_window_of_range(
    entries: Seq<(HummockEpoch, SharedBufferHandle)>,
    buffers: Map<HummockEpoch, SharedBufferHandle>,
    committed: int,
    read_epoch: int,
)
    requires
        0 <= committed < read_epoch <= u64::MAX,
        lists_range(entries, buffers, (committed + 1) as u64, read_epoch as u64),
    ensures
        read_window(buffers.dom(), committed, read_epoch).len() == entries.len(),
        forall|i: int|
            #![trigger read_window(buffers.dom(), committed, read_epoch)[i]]
            0 <= i < entries.len() ==> read_window(buffers.dom(), committed, read_epoch)[i]
                == entries[entries.len() - 1 - i].0,
    decreases read_epoch - committed,
{
    let window = read_window(buffers.dom(), committed, read_epoch);
    let top = read_epoch as u64;
    if read_epoch == committed + 1 {
        assert(read_window(buffers.dom(), committed, read_epoch - 1) == Seq::<u64>::empty());
        if buffers.contains_key(top) {
            let at = choose|i: int| 0 <= i < entries.len() && (#[trigger] entries[i]).0 == top;
            assert(entries.len() == 1) by {
                if entries.len() > 1 {
                    assert(entries[0].0 < entries[1].0);
                }
            }
        } else {
            if entries.len() > 0 {
                assert(buffers.contains_key(entries[0].0));
            }
        }
    } else {
        if buffers.contains_key(top) {
            let at = choose|i: int| 0 <= i < entries.len() && (#[trigger] entries[i]).0 == top;
            assert(at == entries.len() - 1) by {
                if at < entries.len() - 1 {
                    assert(entries[at].0 < entries[entries.len() - 1].0);
                }
            }
            let rest = entries.drop_last();
            assert(lists_range(rest, buffers, (committed + 1) as u64, (read_epoch - 1) as u64)) by {
                assert forall|epoch: HummockEpoch|
                    #![trigger buffers.contains_key(epoch)]
                    buffers.contains_key(epoch) && committed + 1 <= epoch <= read_epoch
                        - 1 implies exists|i: int|
                    0 <= i < rest.len() && (#[trigger] rest[i]).0 == epoch by {
                    let i = choose|i: int|
                        0 <= i < entries.len() && (#[trigger] entries[i]).0 == epoch;
                    assert(rest[i].0 == epoch);
                }
                assert forall|i: int| #![trigger rest[i]] 0 <= i < rest.len() implies rest[i].0
                    <= read_epoch - 1 by {
                    assert(entries[i].0 < entries[entries.len() - 1].0);
                }
            }
            lemma_window_of_range(rest, buffers, committed, read_epoch - 1);
            let below = read_window(buffers.dom(), committed, read_epoch - 1);
            assert(window == seq![top] + below);
            assert forall|i: int| 0 <= i < entries.len() implies #[trigger] window[i]
                == entries[entries.len() - 1 - i].0 by {
                if i > 0 {
                    assert(window[i] == below[i - 1]);
                    assert(below[i - 1] == rest[rest.len() - 1 - (i - 1)].0);
                }
            }
        } else {
            assert(lists_range(entries, buffers, (committed + 1) as u64, (read_epoch - 1) as u64))
                by {
                assert forall|i: int| #![trigger entries[i]] 0 <= i < entries.len() implies
                    entries[i].0 <= read_epoch - 1 by {
                    assert(buffers.contains_key(entries[i].0));
                }
            }
            lemma_window_of_range(entries, buffers, committed, read_epoch - 1);
        }
    }
}

} // verus!

//! The boundary to the lock and channel crates and to the parts of
//! `BTreeMap` that have no specification: what is declared or stated here is
//! taken on trust, everything else in the crate is proved from it.
use crate::local_version::LocalVersion;
use crate::shared_buffer::SharedBuffer;
use crate::version::{HummockEpoch, HummockVersionId};
use parking_lot::lock_api::{ArcRwLockReadGuard, RwLock, RwLockReadGuard, RwLockWriteGuard};
use parking_lot::RawRwLock;
use std::collections::BTreeMap;
use std::sync::Arc;
use tokio::sync::mpsc::UnboundedSender;
use vstd::prelude::*;

verus! {

/// `lock_api::RwLock`, the reader-writer lock that `parking_lot::RwLock`
/// names. Nothing is known of what a lock holds.
#[verifier::external_type_specification]
#[verifier::external_body]
#[verifier::reject_recursive_types(R)]
#[verifier::reject_recursive_types(T)]
pub struct ExRwLock<R, T: ?Sized>(RwLock<R, T>);

/// `parking_lot::RawRwLock`, the lock implementation under `parking_lot::RwLock`.
#[verifier::external_type_specification]
#[verifier::external_body]
pub struct ExRawRwLock(RawRwLock);

/// `tokio::sync::mpsc::UnboundedSender`, the sending half of an unbounded channel.
#[verifier::external_type_specification]
#[verifier::external_body]
#[verifier::reject_recursive_types(T)]
pub struct ExUnboundedSender<T>(UnboundedSender<T>);

/// A shared, lockable write buffer.
pub type SharedBufferHandle = Arc<RwLock<RawRwLock, SharedBuffer>>;

/// Shared read access to a [`SharedBuffer`], held until the guard is dropped:
/// a `lock_api::ArcRwLockReadGuard`, which keeps its lock alive by itself.
#[verifier::external_body]
pub struct SharedBufferReadGuard {
    guard: ArcRwLockReadGuard<RawRwLock, SharedBuffer>,
}

/// Exclusive access to a [`SharedBuffer`], held until the guard is dropped:
/// a `lock_api::RwLockWriteGuard`.
#[verifier::external_body]
pub struct SharedBufferWriteGuard<'a> {
    guard: RwLockWriteGuard<'a, RawRwLock, SharedBuffer>,
}

/// Shared read access to a [`LocalVersion`], held until the guard is dropped:
/// a `lock_api::RwLockReadGuard`.
#[verifier::external_body]
pub struct LocalVersionReadGuard<'a> {
    guard: RwLockReadGuard<'a, RawRwLock, LocalVersion>,
}

/// The lock that a read guard holds: what `ArcRwLockReadGuard::rwlock` returns.
pub uninterp spec fn read_guard_rwlock(guard: SharedBufferReadGuard) -> SharedBufferHandle;

/// Whether two senders feed one channel: what `UnboundedSender::same_channel` returns.
pub uninterp spec fn same_channel(
    first: UnboundedSender<HummockVersionId>,
    second: UnboundedSender<HummockVersionId>,
) -> bool;

/// The buffers of `buffers` whose epoch is above `committed`.
pub open spec fn uncommitted(
    buffers: Map<HummockEpoch, SharedBufferHandle>,
    committed: HummockEpoch,
) -> Map<HummockEpoch, SharedBufferHandle> {
    buffers.restrict(Set::new(|epoch: HummockEpoch| epoch > committed))
}

/// Whether `entries` lists, by ascending epoch, exactly the buffers of
/// `buffers` whose epoch is in `low..=high`.
pub open spec fn lists_range(
    entries: Seq<(HummockEpoch, SharedBufferHandle)>,
    buffers: Map<HummockEpoch, SharedBufferHandle>,
    low: HummockEpoch,
    high: HummockEpoch,
) -> bool {
    &&& forall|i: int, j: int|
        #![trigger entries[i], entries[j]]
        0 <= i < j < entries.len() ==> entries[i].0 < entries[j].0
    &&& forall|i: int|
        #![trigger entries[i]]
        0 <= i < entries.len() ==> {
            &&& low <= entries[i].0 <= high
            &&& buffers.contains_key(entries[i].0)
            &&& buffers[entries[i].0] == entries[i].1
        }
    &&& forall|epoch: HummockEpoch|
        #![trigger buffers.contains_key(epoch)]
        buffers.contains_key(epoch) && low <= epoch <= high ==> exists|i: int|
            0 <= i < entries.len() && (#[trigger] entries[i]).0 == epoch
}

/// Whether a buffer of `epoch` outlives a version committed up to `committed`.
pub fn is_uncommitted(epoch: HummockEpoch, committed: HummockEpoch) -> (keep: bool)
    ensures
        keep == (epoch > committed),
{
    epoch > committed
}

/// `RwLock::new`: a new, unlocked lock around `buffer`.
#[verifier::external_body]
pub(crate) fn new_buffer_lock(buffer: SharedBuffer) -> (lock: RwLock<RawRwLock, SharedBuffer>) {
    RwLock::new(buffer)
}

/// `RwLock::read_arc`: blocks until no writer holds the lock, then returns a
/// guard that holds a copy of `handle`.
#[verifier::external_body]
pub(crate) fn read_lock_buffer(handle: &SharedBufferHandle) -> (guard: SharedBufferReadGuard)
    ensures
        read_guard_rwlock(guard) == *handle,
{
    SharedBufferReadGuard { guard: handle.read_arc() }
}

/// `RwLock::write`: blocks until nobody else holds the lock.
#[verifier::external_body]
pub(crate) fn write_lock_buffer<'a>(lock: &'a RwLock<RawRwLock, SharedBuffer>) -> (guard:
    SharedBufferWriteGuard<'a>) {
    SharedBufferWriteGuard { guard: lock.write() }
}

/// `RwLock::read`: blocks until no writer holds the lock.
#[verifier::external_body]
pub(crate) fn read_lock_local_version<'a>(lock: &'a RwLock<RawRwLock, LocalVersion>) -> (guard:
    LocalVersionReadGuard<'a>) {
    LocalVersionReadGuard { guard: lock.read() }
}

impl SharedBufferReadGuard {
    /// `Deref::deref` of the guard: the buffer in the lock, whatever it holds.
    #[verifier::external_body]
    pub(crate) fn buffer(&self) -> (buffer: &SharedBuffer) {
        &*self.guard
    }
}

impl<'a> SharedBufferWriteGuard<'a> {
    /// `DerefMut::deref_mut` of the guard: the buffer in the lock, whatever it holds.
    #[verifier::external_body]
    pub(crate) fn buffer_mut(&mut self) -> (buffer: &mut SharedBuffer) {
        &mut *self.guard
    }
}

impl<'a> LocalVersionReadGuard<'a> {
    /// `Deref::deref` of the guard: the state in the lock, whatever it is.
    #[verifier::external_body]
    pub(crate) fn local_version(&self) -> (local_version: &LocalVersion) {
        &*self.guard
    }
}

/// `Clone::clone` of an `UnboundedSender`: another sender of the same channel.
#[verifier::external_body]
pub(crate) fn clone_unpin_sender(sender: &UnboundedSender<HummockVersionId>) -> (copy:
    UnboundedSender<HummockVersionId>)
    ensures
        same_channel(*sender, copy),
{
    sender.clone()
}

/// `UnboundedSender::send`: queues `id` unless the receiver is gone, in which
/// case the id is dropped. It neither blocks nor panics.
#[verifier::external_body]
pub(crate) fn send_unpin(sender: &UnboundedSender<HummockVersionId>, id: HummockVersionId)
    opens_invariants none
    no_unwind
{
    let _ = sender.send(id);
}

/// `BTreeMap::range` over `low..=high`: the entries with a key in that range,
/// by ascending key, each handle copied.
#[verifier::external_body]
pub(crate) fn buffers_in_range(
    buffers: &BTreeMap<HummockEpoch, SharedBufferHandle>,
    low: HummockEpoch,
    high: HummockEpoch,
) -> (entries: Vec<(HummockEpoch, SharedBufferHandle)>)
    requires
        low <= high,
    ensures
        lists_range(entries@, buffers@, low, high),
{
    buffers.range(low..=high).map(|(epoch, handle)| (*epoch, handle.clone())).collect()
}

/// `BTreeMap::retain` with [`is_uncommitted`]: removes every entry whose key
/// is not above `committed` and leaves the others as they are.
#[verifier::external_body]
pub(crate) fn retain_uncommitted(
    buffers: &mut BTreeMap<HummockEpoch, SharedBufferHandle>,
    committed: HummockEpoch,
)
    ensures
        final(buffers)@ == uncommitted(old(buffers)@, committed),
{
    buffers.retain(|epoch, _| is_uncommitted(*epoch, committed));
}

} // verus!

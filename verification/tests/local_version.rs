use hummock_local_version::local_version::{LocalVersion, ReadVersion};
use hummock_local_version::shared_buffer::{UploadTaskType, WriteBatch};
use hummock_local_version::sync::SharedBufferHandle;
use hummock_local_version::version::{
    HummockVersion, Level, Levels, SstableInfo, DEFAULT_COMPACTION_GROUP,
};
use parking_lot::RwLock;
use std::collections::HashMap;
use std::sync::Arc;
use tokio::sync::mpsc::error::TryRecvError;
use tokio::sync::mpsc::{unbounded_channel, UnboundedReceiver};

fn version(id: u64, max_committed_epoch: u64) -> HummockVersion {
    HummockVersion { id, levels: HashMap::new(), max_committed_epoch, safe_epoch: 0 }
}

fn local_version(id: u64, max_committed_epoch: u64) -> (LocalVersion, UnboundedReceiver<u64>) {
    let (tx, rx) = unbounded_channel();
    (LocalVersion::new(version(id, max_committed_epoch), tx), rx)
}

fn mark(epoch: u64) -> WriteBatch {
    WriteBatch::new(vec![(epoch.to_be_bytes().to_vec(), b"value".to_vec())])
}

/// Adds a buffer for `epoch` that holds one batch whose key is the epoch.
fn marked_buffer(local: &mut LocalVersion, epoch: u64) -> SharedBufferHandle {
    let handle = local.new_shared_buffer(epoch);
    handle.write().write_batch(mark(epoch));
    handle
}

/// The epochs that the buffers of `read` were marked with, in their order.
fn marks(read: &ReadVersion) -> Vec<u64> {
    let mut epochs = Vec::new();
    for index in 0..read.shared_buffer.len() {
        let buffer = read.buffer(index).unwrap();
        let key = &buffer.batches()[0].items()[0].0;
        let mut bytes = [0u8; 8];
        bytes.copy_from_slice(key);
        epochs.push(u64::from_be_bytes(bytes));
    }
    epochs
}

#[test]
fn read_then_prune_then_read_again() {
    let (mut local, _rx) = local_version(1, 5);
    marked_buffer(&mut local, 6);
    marked_buffer(&mut local, 7);
    marked_buffer(&mut local, 8);
    let lock = RwLock::new(local);

    let read = LocalVersion::read_version(&lock, 8);
    assert_eq!(marks(&read), vec![8, 7, 6]);
    assert_eq!(read.pinned_version.max_committed_epoch(), 5);
    drop(read);

    lock.write().set_pinned_version(version(2, 7));
    assert!(lock.read().get_shared_buffer(6).is_none());
    assert!(lock.read().get_shared_buffer(7).is_none());
    assert!(lock.read().get_shared_buffer(8).is_some());

    let read = LocalVersion::read_version(&lock, 8);
    assert_eq!(marks(&read), vec![8]);
    assert_eq!(read.pinned_version.max_committed_epoch(), 7);
    assert_eq!(read.pinned_version.id(), 2);
}

#[test]
fn read_takes_only_the_epochs_up_to_the_read_epoch() {
    let (mut local, _rx) = local_version(1, 5);
    for epoch in [10, 6, 8, 12] {
        marked_buffer(&mut local, epoch);
    }
    let lock = RwLock::new(local);
    assert_eq!(marks(&LocalVersion::read_version(&lock, 9)), vec![8, 6]);
    assert_eq!(marks(&LocalVersion::read_version(&lock, 10)), vec![10, 8, 6]);
    assert_eq!(marks(&LocalVersion::read_version(&lock, 7)), vec![6]);
    assert_eq!(marks(&LocalVersion::read_version(&lock, u64::MAX)), vec![12, 10, 8, 6]);
}

#[test]
fn read_skips_buffers_at_or_below_the_committed_epoch() {
    let (mut local, _rx) = local_version(1, 5);
    marked_buffer(&mut local, 3);
    marked_buffer(&mut local, 5);
    marked_buffer(&mut local, 6);
    let lock = RwLock::new(local);
    assert_eq!(marks(&LocalVersion::read_version(&lock, 6)), vec![6]);
    assert_eq!(marks(&LocalVersion::read_version(&lock, 100)), vec![6]);
}

#[test]
fn read_at_or_below_the_committed_epoch_has_no_buffer() {
    let (mut local, _rx) = local_version(1, 5);
    marked_buffer(&mut local, 6);
    let lock = RwLock::new(local);
    for read_epoch in [0, 4, 5] {
        let read = LocalVersion::read_version(&lock, read_epoch);
        assert!(read.shared_buffer.is_empty());
        assert!(read.buffer(0).is_none());
        assert_eq!(read.pinned_version.max_committed_epoch(), 5);
    }
}

#[test]
fn read_of_a_version_committed_to_the_last_epoch() {
    let (mut local, _rx) = local_version(1, u64::MAX);
    marked_buffer(&mut local, u64::MAX);
    let lock = RwLock::new(local);
    assert!(LocalVersion::read_version(&lock, u64::MAX).shared_buffer.is_empty());
}

#[test]
fn read_up_to_the_last_epoch() {
    let (mut local, _rx) = local_version(1, u64::MAX - 1);
    marked_buffer(&mut local, u64::MAX);
    let lock = RwLock::new(local);
    assert_eq!(marks(&LocalVersion::read_version(&lock, u64::MAX)), vec![u64::MAX]);
}

#[test]
fn snapshot_copies_the_handles_without_locking() {
    let (mut local, _rx) = local_version(1, 5);
    let six = marked_buffer(&mut local, 6);
    let seven = marked_buffer(&mut local, 7);
    let writer = seven.write();
    let (pinned, handles) = local.snapshot(7);
    drop(writer);
    assert_eq!(handles.len(), 2);
    assert!(Arc::ptr_eq(&handles[0], &seven));
    assert!(Arc::ptr_eq(&handles[1], &six));
    assert!(Arc::ptr_eq(&pinned, local.pinned_version()));
}

#[test]
fn read_holds_each_buffer_for_reading() {
    let (mut local, _rx) = local_version(1, 5);
    let six = marked_buffer(&mut local, 6);
    let nine = marked_buffer(&mut local, 9);
    let lock = RwLock::new(local);
    let read = LocalVersion::read_version(&lock, 6);
    assert!(six.try_write().is_none());
    assert!(six.try_read().is_some());
    assert!(nine.try_write().is_some());
    assert!(lock.try_write().is_some());
    drop(read);
    assert!(six.try_write().is_some());
}

#[test]
fn pinning_a_later_version_prunes_what_it_commits() {
    let (mut local, _rx) = local_version(1, 5);
    for epoch in [6, 7, 8, 9] {
        marked_buffer(&mut local, epoch);
    }
    let nine = local.get_shared_buffer(9).unwrap().clone();
    local.set_pinned_version(version(2, 8));
    for epoch in [6, 7, 8] {
        assert!(local.get_shared_buffer(epoch).is_none());
    }
    assert!(Arc::ptr_eq(local.get_shared_buffer(9).unwrap(), &nine));
    assert_eq!(local.pinned_version().max_committed_epoch(), 8);
}

#[test]
fn pinning_a_version_that_commits_no_more_prunes_nothing() {
    let (mut local, _rx) = local_version(1, 5);
    marked_buffer(&mut local, 3);
    marked_buffer(&mut local, 6);
    local.set_pinned_version(version(2, 5));
    assert!(local.get_shared_buffer(3).is_some());
    assert!(local.get_shared_buffer(6).is_some());
    local.set_pinned_version(version(3, 2));
    assert!(local.get_shared_buffer(3).is_some());
    assert!(local.get_shared_buffer(6).is_some());
    assert_eq!(local.pinned_version().id(), 3);
    assert_eq!(local.pinned_version().max_committed_epoch(), 2);
}

#[test]
fn new_shared_buffer_returns_the_same_buffer_again() {
    let (mut local, _rx) = local_version(1, 5);
    let first = local.new_shared_buffer(6);
    let second = local.new_shared_buffer(6);
    assert!(Arc::ptr_eq(&first, &second));
    assert!(Arc::ptr_eq(local.get_shared_buffer(6).unwrap(), &first));
    assert!(second.read().batches().is_empty());
    first.write().write_batch(mark(6));
    assert_eq!(second.read().batches().len(), 1);
    assert_eq!(local.iter_shared_buffer().len(), 1);
    let other = local.new_shared_buffer(7);
    assert!(!Arc::ptr_eq(&first, &other));
    assert!(other.read().batches().is_empty());
}

#[test]
fn get_shared_buffer_of_an_epoch_without_buffer() {
    let (mut local, _rx) = local_version(1, 5);
    assert!(local.get_shared_buffer(6).is_none());
    local.new_shared_buffer(6);
    assert!(local.get_shared_buffer(6).is_some());
    assert!(local.get_shared_buffer(7).is_none());
}

#[test]
fn iter_shared_buffer_goes_by_ascending_epoch() {
    let (mut local, _rx) = local_version(1, 5);
    assert!(local.iter_shared_buffer().is_empty());
    for epoch in [9, 0, u64::MAX, 7] {
        local.new_shared_buffer(epoch);
    }
    let entries = local.iter_shared_buffer();
    let epochs: Vec<u64> = entries.iter().map(|entry| entry.0).collect();
    assert_eq!(epochs, vec![0, 7, 9, u64::MAX]);
    for (epoch, handle) in &entries {
        assert!(Arc::ptr_eq(handle, local.get_shared_buffer(*epoch).unwrap()));
    }
}

#[test]
fn upload_task_of_an_epoch_without_buffer() {
    let (mut local, _rx) = local_version(1, 5);
    assert!(local.new_upload_task(6, UploadTaskType::FlushWriteBatch).is_none());
    assert!(local.new_upload_task(6, UploadTaskType::SyncEpoch).is_none());
    marked_buffer(&mut local, 7);
    assert!(local.new_upload_task(6, UploadTaskType::SyncEpoch).is_none());
    assert!(local.new_upload_task(8, UploadTaskType::SyncEpoch).is_none());
}

#[test]
fn upload_task_takes_what_is_pending_in_the_buffer() {
    let (mut local, _rx) = local_version(1, 5);
    let handle = local.new_shared_buffer(6);
    assert!(local.new_upload_task(6, UploadTaskType::FlushWriteBatch).is_none());
    handle.write().write_batch(mark(1));
    handle.write().write_batch(mark(2));
    let (index, payload) = local.new_upload_task(6, UploadTaskType::FlushWriteBatch).unwrap();
    assert_eq!(index, 0);
    assert_eq!(payload.len(), 2);
    assert_eq!(payload[0].items(), mark(1).items());
    assert_eq!(payload[1].items(), mark(2).items());
    assert!(local.new_upload_task(6, UploadTaskType::SyncEpoch).is_none());
    handle.write().write_batch(mark(3));
    let (index, payload) = local.new_upload_task(6, UploadTaskType::SyncEpoch).unwrap();
    assert_eq!(index, 2);
    assert_eq!(payload.len(), 1);
    assert_eq!(payload[0].items(), mark(3).items());
    assert_eq!(handle.read().batches().len(), 3);
}

#[test]
fn unpin_is_sent_once_when_the_last_holder_is_dropped() {
    for holders in [0usize, 1, 5] {
        let (local, mut rx) = local_version(42, 5);
        let mut clones = Vec::new();
        for _ in 0..holders {
            clones.push(local.pinned_version().clone());
        }
        assert_eq!(rx.try_recv(), Err(TryRecvError::Empty));
        drop(local);
        while let Some(holder) = clones.pop() {
            assert_eq!(rx.try_recv(), Err(TryRecvError::Empty));
            drop(holder);
        }
        assert_eq!(rx.try_recv(), Ok(42));
        assert_eq!(rx.try_recv(), Err(TryRecvError::Disconnected));
    }
}

#[test]
fn replaced_version_is_unpinned_on_the_same_channel() {
    let (mut local, mut rx) = local_version(1, 5);
    local.set_pinned_version(version(2, 6));
    assert_eq!(rx.try_recv(), Ok(1));
    local.set_pinned_version(version(3, 7));
    assert_eq!(rx.try_recv(), Ok(2));
    assert_eq!(rx.try_recv(), Err(TryRecvError::Empty));
    drop(local);
    assert_eq!(rx.try_recv(), Ok(3));
    assert_eq!(rx.try_recv(), Err(TryRecvError::Disconnected));
}

#[test]
fn a_read_keeps_its_version_pinned() {
    let (local, mut rx) = local_version(1, 5);
    let lock = RwLock::new(local);
    let read = LocalVersion::read_version(&lock, 8);
    lock.write().set_pinned_version(version(2, 6));
    assert_eq!(rx.try_recv(), Err(TryRecvError::Empty));
    assert_eq!(read.pinned_version.id(), 1);
    drop(read);
    assert_eq!(rx.try_recv(), Ok(1));
}

#[test]
fn unpin_after_the_receiver_is_gone_is_dropped_silently() {
    let (mut local, rx) = local_version(1, 5);
    drop(rx);
    local.set_pinned_version(version(2, 6));
    drop(local);
}

#[test]
fn pinned_version_reports_its_version() {
    let level = Level {
        level_idx: 1,
        table_infos: vec![SstableInfo { id: 11, file_size: 100 }],
        total_file_size: 100,
    };
    let mut levels = HashMap::new();
    levels.insert(DEFAULT_COMPACTION_GROUP, Levels { levels: vec![level.clone()] });
    levels.insert(DEFAULT_COMPACTION_GROUP + 1, Levels { levels: vec![] });
    let version = HummockVersion { id: 9, levels, max_committed_epoch: 5, safe_epoch: 3 };
    assert!(version.contains_compaction_group(DEFAULT_COMPACTION_GROUP));
    assert!(!version.contains_compaction_group(0));
    assert!(version.get_compaction_group_levels(DEFAULT_COMPACTION_GROUP + 1).is_empty());
    let (tx, _rx) = unbounded_channel();
    let local = LocalVersion::new(version.clone(), tx);
    let pinned = local.pinned_version();
    assert_eq!(pinned.id(), 9);
    assert_eq!(pinned.max_committed_epoch(), 5);
    assert_eq!(pinned.safe_epoch(), 3);
    assert_eq!(pinned.levels(), &vec![level]);
    assert_eq!(pinned.version(), &version);
}

#[test]
fn a_clone_shares_the_buffers_and_the_pinned_version() {
    let (mut local, mut rx) = local_version(1, 5);
    let six = marked_buffer(&mut local, 6);
    let mut copy = local.clone();
    assert!(Arc::ptr_eq(copy.get_shared_buffer(6).unwrap(), &six));
    assert!(Arc::ptr_eq(copy.pinned_version(), local.pinned_version()));
    copy.new_shared_buffer(7);
    assert!(local.get_shared_buffer(7).is_none());
    drop(local);
    assert_eq!(rx.try_recv(), Err(TryRecvError::Empty));
    drop(copy);
    assert_eq!(rx.try_recv(), Ok(1));
}

use hummock_local_version::shared_buffer::{SharedBuffer, UploadTaskType, WriteBatch};

fn batch(key: &str) -> WriteBatch {
    WriteBatch::new(vec![(key.as_bytes().to_vec(), b"v".to_vec())])
}

fn keys(batches: &[WriteBatch]) -> Vec<String> {
    batches.iter().map(|batch| String::from_utf8(batch.items()[0].0.clone()).unwrap()).collect()
}

#[test]
fn an_empty_buffer_has_no_upload_task() {
    let mut buffer = SharedBuffer::new();
    assert!(buffer.batches().is_empty());
    assert!(buffer.new_upload_task(UploadTaskType::FlushWriteBatch).is_none());
    assert!(buffer.new_upload_task(UploadTaskType::SyncEpoch).is_none());
    let mut buffer = SharedBuffer::default();
    assert!(buffer.batches().is_empty());
    assert!(buffer.new_upload_task(UploadTaskType::SyncEpoch).is_none());
}

#[test]
fn an_upload_task_takes_every_pending_batch_in_order() {
    let mut buffer = SharedBuffer::new();
    buffer.write_batch(batch("a"));
    buffer.write_batch(batch("b"));
    buffer.write_batch(batch("c"));
    let (index, payload) = buffer.new_upload_task(UploadTaskType::FlushWriteBatch).unwrap();
    assert_eq!(index, 0);
    assert_eq!(keys(&payload), vec!["a", "b", "c"]);
    assert_eq!(keys(buffer.batches()), vec!["a", "b", "c"]);
}

#[test]
fn no_batch_is_taken_twice() {
    let mut buffer = SharedBuffer::new();
    buffer.write_batch(batch("a"));
    let (first, payload) = buffer.new_upload_task(UploadTaskType::FlushWriteBatch).unwrap();
    assert_eq!((first, keys(&payload)), (0, vec!["a".to_string()]));
    assert!(buffer.new_upload_task(UploadTaskType::FlushWriteBatch).is_none());
    assert!(buffer.new_upload_task(UploadTaskType::SyncEpoch).is_none());
    buffer.write_batch(batch("b"));
    buffer.write_batch(batch("c"));
    let (second, payload) = buffer.new_upload_task(UploadTaskType::SyncEpoch).unwrap();
    assert_eq!((second, keys(&payload)), (1, vec!["b".to_string(), "c".to_string()]));
    buffer.write_batch(batch("d"));
    let (third, payload) = buffer.new_upload_task(UploadTaskType::FlushWriteBatch).unwrap();
    assert_eq!((third, keys(&payload)), (3, vec!["d".to_string()]));
    assert!(first < second && second < third);
    assert_eq!(keys(buffer.batches()), vec!["a", "b", "c", "d"]);
}

#[test]
fn a_copy_of_a_batch_has_the_same_items() {
    let items = vec![(b"k1".to_vec(), b"v1".to_vec()), (b"k2".to_vec(), Vec::new())];
    let batch = WriteBatch::new(items.clone());
    let copy = batch.clone();
    assert_eq!(batch.items(), &items);
    assert_eq!(copy.items(), &items);
    assert!(std::ptr::eq(batch.items(), copy.items()));
    assert!(WriteBatch::new(Vec::new()).items().is_empty());
}

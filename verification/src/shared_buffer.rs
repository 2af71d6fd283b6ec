//! The write buffer of one epoch: the batches written at that epoch, in the
//! order in which they arrived, and how many of them have already been handed
//! to an upload task.
use std::sync::Arc;
use vstd::prelude::*;

verus! {

/// Orders the upload tasks of one buffer: a later task has a larger index.
pub type OrderIndex = usize;

/// What an upload task carries: batches in the order in which they were written.
pub type UploadTaskPayload = Vec<WriteBatch>;

/// Why an upload task is asked for.
#[derive(Clone, Copy, Debug, PartialEq, Eq)]
pub enum UploadTaskType {
    /// The buffered writes have grown large enough to be flushed.
    FlushWriteBatch,
    /// The epoch is being synced: everything written in it has to become durable.
    SyncEpoch,
}

/// One batch of key-value writes. Copies of a batch share its contents.
#[derive(Debug)]
pub struct WriteBatch {
    items: Arc<Vec<(Vec<u8>, Vec<u8>)>>,
}

impl WriteBatch {
    /// The key-value pairs of the batch, in the order in which they were given.
    pub closed spec fn entries(self) -> Vec<(Vec<u8>, Vec<u8>)> {
        *self.items
    }

    /// A batch of the given key-value pairs.
    pub fn new(items: Vec<(Vec<u8>, Vec<u8>)>) -> (batch: Self)
        ensures
            batch.entries() == items,
    {
        WriteBatch { items: Arc::new(items) }
    }

    /// The key-value pairs of the batch.
    pub fn items(&self) -> (items: &Vec<(Vec<u8>, Vec<u8>)>)
        ensures
            *items == self.entries(),
    {
        &*self.items
    }
}

impl Clone for WriteBatch {
    fn clone(&self) -> (copy: Self)
        ensures
            copy == *self,
    {
        WriteBatch { items: self.items.clone() }
    }
}

/// What a [`SharedBuffer`] holds: every batch written so far, oldest first,
/// and how many of them, counted from the oldest, upload tasks have taken.
pub struct SharedBufferView {
    pub log: Seq<WriteBatch>,
    pub handed_out: nat,
}

impl SharedBufferView {
    /// No more batches are handed out than were written.
    pub open spec fn wf(self) -> bool {
        self.handed_out <= self.log.len()
    }

    /// The batches that no upload task has taken yet, oldest first.
    pub open spec fn pending(self) -> Seq<WriteBatch> {
        self.log.subrange(self.handed_out as int, self.log.len() as int)
    }

    /// The buffer after `batch` was written to it.
    pub open spec fn write(self, batch: WriteBatch) -> Self {
        SharedBufferView { log: self.log.push(batch), handed_out: self.handed_out }
    }

    /// The buffer after an upload task took every pending batch.
    pub open spec fn hand_out(self) -> Self {
        SharedBufferView { log: self.log, handed_out: self.log.len() }
    }

    /// What asking for an upload task returns in this state: nothing when no
    /// batch is pending, else the pending batches under the position of the
    /// first of them in the log.
    pub open spec fn upload_task(self) -> Option<(nat, Seq<WriteBatch>)> {
        if self.pending().len() == 0 {
            None
        } else {
            Some((self.handed_out, self.pending()))
        }
    }

    /// The buffer after an upload task was asked for.
    pub open spec fn after_upload_task(self) -> Self {
        if self.pending().len() == 0 {
            self
        } else {
            self.hand_out()
        }
    }
}

/// The writes of one epoch that are not durable yet.
///
/// A reader sees every batch; an upload task takes the batches that no
/// earlier task has taken, so no batch is ever carried by two tasks.
#[derive(Debug)]
pub struct SharedBuffer {
    batches: Vec<WriteBatch>,
    flushed: usize,
}

impl View for SharedBuffer {
    type V = SharedBufferView;

    closed spec fn view(&self) -> SharedBufferView {
        SharedBufferView {
            log: self.batches@,
            handed_out: if self.flushed <= self.batches.len() {
                self.flushed as nat
            } else {
                self.batches@.len()
            },
        }
    }
}

/// What `task` carries, as a value of the model.
pub open spec fn task_view(task: Option<(OrderIndex, UploadTaskPayload)>) -> Option<
    (nat, Seq<WriteBatch>),
> {
    match task {
        Some((index, payload)) => Some((index as nat, payload@)),
        None => None,
    }
}

impl SharedBuffer {
    /// An empty buffer.
    pub fn new() -> (buffer: Self)
        ensures
            buffer@ == (SharedBufferView { log: Seq::empty(), handed_out: 0 }),
    {
        SharedBuffer { batches: Vec::new(), flushed: 0 }
    }

    /// Every buffer is well formed.
    pub proof fn lemma_wf(self)
        ensures
            self@.wf(),
    {
    }

    /// Appends `batch` to the buffer. It is pending until an upload task takes it.
    pub fn write_batch(&mut self, batch: WriteBatch)
        ensures
            final(self)@ == old(self)@.write(batch),
    {
        if self.flushed > self.batches.len() {
            self.flushed = self.batches.len();
        }
        self.batches.push(batch);
    }

    /// All batches written so far, oldest first, whether handed out or not.
    pub fn batches(&self) -> (batches: &Vec<WriteBatch>)
        ensures
            batches@ == self@.log,
    {
        &self.batches
    }

    /// Cuts an upload task: takes every batch that no earlier task has taken.
    ///
    /// Returns `None`, and changes nothing, when no batch is pending. The
    /// index of the task is the position of its first batch in the log, so
    /// the tasks of one buffer carry disjoint runs of the log under strictly
    /// increasing indices.
    pub fn new_upload_task(&mut self, task_type: UploadTaskType) -> (task: Option<
        (OrderIndex, UploadTaskPayload),
    >)
        ensures
            task_view(task) == old(self)@.upload_task(),
            final(self)@ == old(self)@.after_upload_task(),
    {
        let len: usize = self.batches.len();
        if self.flushed >= len {
            assert(self@.pending().len() == 0);
            return None;
        }
        let first: usize = self.flushed;
        let mut payload: Vec<WriteBatch> = Vec::new();
        let mut i: usize = first;
        while i < len
            invariant
                first <= i <= len,
                len == self.batches.len(),
                payload@ == self.batches@.subrange(first as int, i as int),
            decreases len - i,
        {
            payload.push(self.batches[i].clone());
            i += 1;
            assert(self.batches@.subrange(first as int, i as int) == self.batches@.subrange(
                first as int,
                i - 1,
            ).push(self.batches@[i - 1]));
        }
        self.flushed = len;
        Some((first, payload))
    }
}

impl Default for SharedBuffer {
    fn default() -> (buffer: Self)
        ensures
            buffer@ == (SharedBufferView { log: Seq::empty(), handed_out: 0 }),
    {
        SharedBuffer::new()
    }
}

/// Two upload tasks of one buffer never carry the same write: whatever is
/// written between them, the later task starts in the log where the earlier
/// one ended or further on, and so has the larger index.
pub proof fn lemma_upload_tasks_do_not_overlap(
    before: SharedBufferView,
    written: Seq<WriteBatch>,
)
    requires
        before.wf(),
        before.upload_task() is Some,
    ensures
        ({
            let first = before.upload_task()->0;
            let later = SharedBufferView {
                log: before.after_upload_task().log + written,
                handed_out: before.after_upload_task().handed_out,
            };
            later.upload_task() matches Some(second) ==> {
                &&& first.0 + first.1.len() <= second.0
                &&& first.0 < second.0
                &&& second.1 == written
            }
        }),
{
    let later = SharedBufferView {
        log: before.after_upload_task().log + written,
        handed_out: before.after_upload_task().handed_out,
    };
    assert(later.pending() =~= written);
}

} // verus!

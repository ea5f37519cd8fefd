//! The task that pushes the records written to the log of a shard into a channel.
//!
//! The task itself only decides. It hands out one [`FetchTaskAction`] after the other, and takes
//! back what became of it, through the method that the action names.
use vstd::prelude::*;

use crate::message::{
    FetchResponseV2, FetchResponseV2View, IngestV2Error, IngestV2ErrorView, MRecordBatch,
    MRecordBatchView, OpenFetchStreamRequest, OpenFetchStreamRequestView,
};
use crate::mrecord::{
    ends_with_eof, eof_mrecord, fetch_batch, is_batch_of, lemma_batch_is_wf, mrecord_contents,
    FilledBatch, FilledBatchView,
};
use crate::position::{offset_after, position_before, Position};
use crate::queue_id::{ClientId, IndexUid, QueueId, ShardId, SourceId};

verus! {

/// What a fetch task has to have done next.
pub enum FetchTaskAction {
    /// Wait until new records are written to the shard, or the shard is dropped. Answered by
    /// [`FetchStreamTask::on_new_records`].
    AwaitNewRecords,
    /// Read the records of the queue from a position on. Answered by
    /// [`FetchStreamTask::on_mrecords`] or [`FetchStreamTask::on_queue_dropped`].
    ReadMRecords { from_position_inclusive: u64 },
    /// Send a response to the consumer. Answered by [`FetchStreamTask::on_response_sent`].
    SendResponse(FetchResponseV2),
    /// Send the error, if there is one, to the consumer, whether it is still there or not, and end
    /// the task.
    Stop(Option<IngestV2Error>),
}

/// What a [`FetchTaskAction`] asks for.
#[verifier::ext_equal]
pub enum FetchTaskActionView {
    AwaitNewRecords,
    ReadMRecords { from_position_inclusive: nat },
    SendResponse(FetchResponseV2View),
    Stop(Option<IngestV2ErrorView>),
}

impl View for FetchTaskAction {
    type V = FetchTaskActionView;

    open spec fn view(&self) -> FetchTaskActionView {
        match self {
            FetchTaskAction::AwaitNewRecords => FetchTaskActionView::AwaitNewRecords,
            FetchTaskAction::ReadMRecords { from_position_inclusive } =>
                FetchTaskActionView::ReadMRecords {
                from_position_inclusive: *from_position_inclusive as nat,
            },
            FetchTaskAction::SendResponse(response) => FetchTaskActionView::SendResponse(response@),
            FetchTaskAction::Stop(error_opt) => FetchTaskActionView::Stop(
                match error_opt {
                    Some(error) => Some(error@),
                    None => None,
                },
            ),
        }
    }
}

/// A fetch stream task is responsible for waiting and pushing new records written to a shard's
/// record log into a channel.
pub struct FetchStreamTask {
    /// Uniquely identifies the consumer of the fetch task for logging and debugging purposes.
    client_id: ClientId,
    index_uid: IndexUid,
    source_id: SourceId,
    shard_id: ShardId,
    queue_id: QueueId,
    /// The position of the next record fetched.
    from_position_inclusive: u64,
    batch_num_bytes: usize,
    /// Whether the last read took every record that was there.
    has_drained_queue: bool,
    /// Whether the record that marks the end of the shard has been taken.
    has_reached_eof: bool,
}

/// The state of a [`FetchStreamTask`].
#[verifier::ext_equal]
pub struct FetchStreamTaskView {
    pub client_id: Seq<char>,
    pub index_uid: Seq<char>,
    pub source_id: Seq<char>,
    pub shard_id: ShardId,
    pub queue_id: Seq<char>,
    pub from_position_inclusive: nat,
    pub batch_num_bytes: nat,
    pub has_drained_queue: bool,
    pub has_reached_eof: bool,
}

impl View for FetchStreamTask {
    type V = FetchStreamTaskView;

    closed spec fn view(&self) -> FetchStreamTaskView {
        FetchStreamTaskView {
            client_id: self.client_id@,
            index_uid: self.index_uid@,
            source_id: self.source_id@,
            shard_id: self.shard_id,
            queue_id: self.queue_id@,
            from_position_inclusive: self.from_position_inclusive as nat,
            batch_num_bytes: self.batch_num_bytes as nat,
            has_drained_queue: self.has_drained_queue,
            has_reached_eof: self.has_reached_eof,
        }
    }
}

/// What the consumer is told where a task ends before the end of the shard.
pub open spec fn ended_early_message() -> Seq<char> {
    "fetch stream ended before reaching end of shard"@
}

/// The state that a task starts in.
pub open spec fn initial_task(
    request: OpenFetchStreamRequestView,
    batch_num_bytes: nat,
) -> FetchStreamTaskView {
    FetchStreamTaskView {
        client_id: request.client_id,
        index_uid: request.index_uid,
        source_id: request.source_id,
        shard_id: request.shard_id,
        queue_id: request.queue_id(),
        from_position_inclusive: offset_after(request.from_position_exclusive()),
        batch_num_bytes,
        has_drained_queue: false,
        has_reached_eof: false,
    }
}

impl FetchStreamTaskView {
    /// Positions and sizes are in the range of the machine.
    pub open spec fn wf(self) -> bool {
        &&& self.from_position_inclusive <= u64::MAX
        &&& self.batch_num_bytes <= isize::MAX
    }

    /// Reads on from the position that has been reached.
    pub open spec fn read(self) -> FetchTaskActionView {
        FetchTaskActionView::ReadMRecords { from_position_inclusive: self.from_position_inclusive }
    }

    /// Ends the task: with an error unless it has reached the end of the shard.
    pub open spec fn stop(self) -> FetchTaskActionView {
        FetchTaskActionView::Stop(
            if self.has_reached_eof {
                None
            } else {
                Some(IngestV2ErrorView::Internal(ended_early_message()))
            },
        )
    }

    /// What to do next: end at the end of the shard, wait where the queue is drained, read on
    /// where it is not.
    pub open spec fn next_action(self) -> FetchTaskActionView {
        if self.has_reached_eof {
            self.stop()
        } else if self.has_drained_queue {
            FetchTaskActionView::AwaitNewRecords
        } else {
            self.read()
        }
    }

    /// The state once a batch has been filled. A batch without a byte leaves the position where
    /// it is.
    pub open spec fn after_batch(self, batch: FilledBatchView) -> FetchStreamTaskView {
        if batch.mrecord_buffer.len() == 0 {
            FetchStreamTaskView { has_drained_queue: batch.has_drained_queue, ..self }
        } else {
            FetchStreamTaskView {
                from_position_inclusive: self.from_position_inclusive
                    + batch.mrecord_lengths.len(),
                has_drained_queue: batch.has_drained_queue,
                has_reached_eof: self.has_reached_eof || batch.last_mrecord() == eof_mrecord(),
                ..self
            }
        }
    }

    /// The response that carries a batch.
    pub open spec fn response(self, batch: FilledBatchView) -> FetchResponseV2View {
        let after = self.after_batch(batch);
        FetchResponseV2View {
            index_uid: self.index_uid,
            source_id: self.source_id,
            shard_id: self.shard_id,
            mrecord_batch: Some(
                MRecordBatchView {
                    mrecord_buffer: batch.mrecord_buffer,
                    mrecord_lengths: batch.mrecord_lengths,
                },
            ),
            from_position_exclusive: Some(position_before(self.from_position_inclusive)),
            to_position_inclusive: Some(
                if batch.last_mrecord() == eof_mrecord() {
                    Position::Eof
                } else {
                    position_before(after.from_position_inclusive)
                },
            ),
        }
    }

    /// What to do with a batch: send it, unless it is without a byte.
    pub open spec fn batch_action(self, batch: FilledBatchView) -> FetchTaskActionView {
        if batch.mrecord_buffer.len() == 0 {
            self.after_batch(batch).next_action()
        } else {
            FetchTaskActionView::SendResponse(self.response(batch))
        }
    }

    /// What to do once a response has been delivered, or has not because the consumer is gone.
    pub open spec fn sent_action(self, delivered: bool) -> FetchTaskActionView {
        if delivered {
            self.next_action()
        } else {
            self.stop()
        }
    }
}

impl FetchStreamTask {
    /// The size of a batch where nothing else is asked for: 1 MiB.
    pub const DEFAULT_BATCH_NUM_BYTES: usize = 1024 * 1024;

    /// Creates the task that serves a request, in batches of `batch_num_bytes` bytes. It starts
    /// with the record that follows the position of the request, or with the first one.
    pub fn spawn(
        open_fetch_stream_request: OpenFetchStreamRequest,
        batch_num_bytes: usize,
    ) -> (task: FetchStreamTask)
        requires
            open_fetch_stream_request@.from_position_exclusive() != Position::Offset(u64::MAX),
            batch_num_bytes <= isize::MAX,
        ensures
            task@ == initial_task(open_fetch_stream_request@, batch_num_bytes as nat),
            task@.wf(),
    {
        let from_position_inclusive: u64 =
            match open_fetch_stream_request.from_position_exclusive().as_u64() {
            Some(offset) => offset + 1,
            None => 0,
        };
        FetchStreamTask {
            queue_id: open_fetch_stream_request.queue_id(),
            client_id: open_fetch_stream_request.client_id,
            index_uid: open_fetch_stream_request.index_uid,
            source_id: open_fetch_stream_request.source_id,
            shard_id: open_fetch_stream_request.shard_id,
            from_position_inclusive,
            batch_num_bytes,
            has_drained_queue: false,
            has_reached_eof: false,
        }
    }

    /// Returns the identifier of the queue that the task reads.
    pub fn queue_id(&self) -> (queue_id: &QueueId)
        ensures
            queue_id@ == self@.queue_id,
    {
        &self.queue_id
    }

    pub fn client_id(&self) -> (client_id: &ClientId)
        ensures
            client_id@ == self@.client_id,
    {
        &self.client_id
    }

    pub fn index_uid(&self) -> (index_uid: &IndexUid)
        ensures
            index_uid@ == self@.index_uid,
    {
        &self.index_uid
    }

    pub fn source_id(&self) -> (source_id: &SourceId)
        ensures
            source_id@ == self@.source_id,
    {
        &self.source_id
    }

    pub fn shard_id(&self) -> (shard_id: ShardId)
        ensures
            shard_id == self@.shard_id,
    {
        self.shard_id
    }

    /// Returns what the task has to have done first, or next.
    pub fn next_action(&self) -> (action: FetchTaskAction)
        ensures
            action@ == self@.next_action(),
    {
        if self.has_reached_eof {
            self.stop()
        } else if self.has_drained_queue {
            FetchTaskAction::AwaitNewRecords
        } else {
            self.read()
        }
    }

    fn read(&self) -> (action: FetchTaskAction)
        ensures
            action@ == self@.read(),
    {
        FetchTaskAction::ReadMRecords { from_position_inclusive: self.from_position_inclusive }
    }

    fn stop(&self) -> (action: FetchTaskAction)
        ensures
            action@ == self@.stop(),
    {
        if self.has_reached_eof {
            FetchTaskAction::Stop(None)
        } else {
            FetchTaskAction::Stop(
                Some(
                    IngestV2Error::Internal(
                        "fetch stream ended before reaching end of shard".to_owned(),
                    ),
                ),
            )
        }
    }

    /// The wait for new records is over: there may be new ones, or the shard has been dropped.
    pub fn on_new_records(&self, shard_dropped: bool) -> (action: FetchTaskAction)
        ensures
            action@ == (if shard_dropped {
                self@.stop()
            } else {
                self@.read()
            }),
    {
        if shard_dropped {
            self.stop()
        } else {
            self.read()
        }
    }

    /// The queue to read does not exist.
    pub fn on_queue_dropped(&self) -> (action: FetchTaskAction)
        ensures
            action@ == self@.stop(),
    {
        self.stop()
    }

    /// The queue has been read: `mrecords` are its records from the position that has been reached
    /// on.
    pub fn on_mrecords(&mut self, mrecords: &[&[u8]]) -> (action: FetchTaskAction)
        requires
            old(self)@.wf(),
            old(self)@.from_position_inclusive + mrecords@.len() <= u64::MAX,
        ensures
            final(self)@.wf(),
            exists|batch: FilledBatchView|
                {
                    &&& #[trigger] is_batch_of(
                        batch,
                        mrecord_contents(mrecords@),
                        old(self)@.batch_num_bytes,
                    )
                    &&& final(self)@ == old(self)@.after_batch(batch)
                    &&& action@ == old(self)@.batch_action(batch)
                },
    {
        let batch = fetch_batch(self.batch_num_bytes, mrecords);
        proof {
            lemma_batch_is_wf(
                mrecord_contents(mrecords@),
                self.batch_num_bytes as nat,
                batch@,
            );
        }
        self.on_batch(batch)
    }

    /// A batch has been filled from the position that has been reached on.
    pub fn on_batch(&mut self, batch: FilledBatch) -> (action: FetchTaskAction)
        requires
            old(self)@.wf(),
            batch@.wf(),
            batch@.mrecord_buffer.len() > 0 ==> old(self)@.from_position_inclusive
                + batch@.mrecord_lengths.len() <= u64::MAX,
        ensures
            final(self)@.wf(),
            final(self)@ == old(self)@.after_batch(batch@),
            action@ == old(self)@.batch_action(batch@),
    {
        self.has_drained_queue = batch.has_drained_queue;

        if batch.mrecord_buffer.is_empty() {
            return self.next_action();
        }
        let from_position_exclusive = if self.from_position_inclusive == 0 {
            Position::Beginning
        } else {
            Position::from(self.from_position_inclusive - 1)
        };
        self.from_position_inclusive = self.from_position_inclusive + batch.mrecord_lengths.len()
            as u64;
        let to_position_inclusive = if ends_with_eof(&batch) {
            self.has_reached_eof = true;
            Position::Eof
        } else {
            Position::from(self.from_position_inclusive - 1)
        };
        let mrecord_batch = MRecordBatch {
            mrecord_buffer: batch.mrecord_buffer.freeze(),
            mrecord_lengths: batch.mrecord_lengths,
        };
        FetchTaskAction::SendResponse(
            FetchResponseV2 {
                index_uid: self.index_uid.clone(),
                source_id: self.source_id.clone(),
                shard_id: self.shard_id,
                mrecord_batch: Some(mrecord_batch),
                from_position_exclusive: Some(from_position_exclusive),
                to_position_inclusive: Some(to_position_inclusive),
            },
        )
    }

    /// The response has been delivered, or it has not because the consumer is gone.
    pub fn on_response_sent(&self, delivered: bool) -> (action: FetchTaskAction)
        ensures
            action@ == self@.sent_action(delivered),
    {
        if delivered {
            self.next_action()
        } else {
            self.stop()
        }
    }
}

} // verus!

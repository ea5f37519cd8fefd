//! What each operation of a fetch task does, in terms of what goes into it and what comes out.
use vstd::prelude::*;

use crate::buffer::{bytes_contents, bytes_mut_contents};
use crate::data_laws::{
    bytes_of_first, is_cut_at, is_queue_of, law_queue_is_of_one_shard, lemma_batch_cuts_records,
    lemma_queue_of_shard,
};
use crate::fetch_task::{initial_task, FetchStreamTask, FetchStreamTaskView, FetchTaskAction};
use crate::fetch_task_run::{is_run, responses, run, FetchTaskEvent};
use crate::message::{
    FetchResponseV2, IngestV2Error, OpenFetchStreamRequest, OpenFetchStreamRequestView,
};
use crate::mrecord::{
    eof_mrecord, is_batch_of, lemma_batch_is_wf, mrecord_contents, FilledBatch, FilledBatchView,
};
use crate::position::Position;
use crate::queue_id::{ClientId, IndexUid, QueueId, ShardId, SourceId};

verus! {

/// A task that is spawned serves its request: the client, the index, the source and the shard are
/// those of the request, the queue is the one that these spell out, and the first record is the
/// one behind the position of the request, or the first one of the queue. Batches have the size
/// asked for.
pub proof fn law_spawned_task_serves_its_request(
    request: OpenFetchStreamRequest,
    batch_num_bytes: usize,
    task: FetchStreamTask,
)
    requires
        call_ensures(FetchStreamTask::spawn, (request, batch_num_bytes), task),
    ensures
        task@.client_id == request.client_id@,
        task@.index_uid == request.index_uid@,
        task@.source_id == request.source_id@,
        task@.shard_id == request.shard_id,
        is_queue_of(task@.queue_id, request.index_uid@, request.source_id@, request.shard_id),
        task@.from_position_inclusive == match request.from_position_exclusive {
            Some(Position::Offset(offset)) => offset + 1,
            _ => 0,
        },
        task@.batch_num_bytes == batch_num_bytes,
        !task@.has_drained_queue,
        !task@.has_reached_eof,
{
    lemma_queue_of_shard(
        task@.queue_id,
        request.index_uid@,
        request.source_id@,
        request.shard_id,
    );
}

/// Tasks for different shards of a source read different queues.
pub proof fn law_tasks_for_different_shards_read_different_queues(
    request: OpenFetchStreamRequest,
    other_request: OpenFetchStreamRequest,
    batch_num_bytes: usize,
    other_batch_num_bytes: usize,
    task: FetchStreamTask,
    other_task: FetchStreamTask,
)
    requires
        call_ensures(FetchStreamTask::spawn, (request, batch_num_bytes), task),
        call_ensures(FetchStreamTask::spawn, (other_request, other_batch_num_bytes), other_task),
        request.index_uid@ == other_request.index_uid@,
        request.source_id@ == other_request.source_id@,
        request.shard_id != other_request.shard_id,
    ensures
        task@.queue_id != other_task@.queue_id,
{
    law_spawned_task_serves_its_request(request, batch_num_bytes, task);
    law_spawned_task_serves_its_request(other_request, other_batch_num_bytes, other_task);
    if task@.queue_id == other_task@.queue_id {
        law_queue_is_of_one_shard(
            task@.queue_id,
            request.index_uid@,
            request.source_id@,
            request.shard_id,
            other_request.shard_id,
        );
    }
}

/// A task says of itself what it holds.
pub proof fn law_task_says_what_it_serves(
    task: &FetchStreamTask,
    queue_id: &QueueId,
    client_id: &ClientId,
    index_uid: &IndexUid,
    source_id: &SourceId,
    shard_id: ShardId,
)
    requires
        call_ensures(FetchStreamTask::queue_id, (task,), queue_id),
        call_ensures(FetchStreamTask::client_id, (task,), client_id),
        call_ensures(FetchStreamTask::index_uid, (task,), index_uid),
        call_ensures(FetchStreamTask::source_id, (task,), source_id),
        call_ensures(FetchStreamTask::shard_id, (task,), shard_id),
    ensures
        queue_id@ == task@.queue_id,
        client_id@ == task@.client_id,
        index_uid@ == task@.index_uid,
        source_id@ == task@.source_id,
        shard_id == task@.shard_id,
{
}

/// The action reads from a position on.
pub open spec fn reads_from(action: FetchTaskAction, position: nat) -> bool {
    action matches FetchTaskAction::ReadMRecords { from_position_inclusive }
        && from_position_inclusive == position
}

/// The action ends the task without an error.
pub open spec fn ends_silently(action: FetchTaskAction) -> bool {
    action matches FetchTaskAction::Stop(error_opt) && error_opt is None
}

/// The action ends the task and tells the consumer that it ends early.
pub open spec fn ends_early(action: FetchTaskAction) -> bool {
    &&& action matches FetchTaskAction::Stop(Some(IngestV2Error::Internal(message)))
    &&& message@ == "fetch stream ended before reaching end of shard"@
}

/// A task goes on as its queue stands: at the end of the shard it ends, and it does so silently;
/// where it has taken every record it waits; else it reads on from where it is.
pub proof fn law_task_goes_on(task: &FetchStreamTask, action: FetchTaskAction)
    requires
        call_ensures(FetchStreamTask::next_action, (task,), action),
    ensures
        task@.has_reached_eof ==> ends_silently(action),
        !task@.has_reached_eof && task@.has_drained_queue ==> action is AwaitNewRecords,
        !task@.has_reached_eof && !task@.has_drained_queue ==> reads_from(
            action,
            task@.from_position_inclusive,
        ),
{
}

/// A task goes on after a delivery as it would go on otherwise, and ends where the consumer is
/// gone: it says that it ends early unless it has reached the end of the shard.
pub proof fn law_delivery_lets_the_task_go_on(
    task: &FetchStreamTask,
    delivered: bool,
    action: FetchTaskAction,
)
    requires
        call_ensures(FetchStreamTask::on_response_sent, (task, delivered), action),
    ensures
        task@.has_reached_eof ==> ends_silently(action),
        !task@.has_reached_eof && !delivered ==> ends_early(action),
        !task@.has_reached_eof && delivered && task@.has_drained_queue
            ==> action is AwaitNewRecords,
        !task@.has_reached_eof && delivered && !task@.has_drained_queue ==> reads_from(
            action,
            task@.from_position_inclusive,
        ),
{
}

/// New records are read from where the task is. Where the shard has been dropped instead, the task
/// ends, and says that it ends early unless it has reached the end of the shard.
pub proof fn law_new_records_are_read(
    task: &FetchStreamTask,
    shard_dropped: bool,
    action: FetchTaskAction,
)
    requires
        call_ensures(FetchStreamTask::on_new_records, (task, shard_dropped), action),
    ensures
        !shard_dropped ==> reads_from(action, task@.from_position_inclusive),
        shard_dropped && task@.has_reached_eof ==> ends_silently(action),
        shard_dropped && !task@.has_reached_eof ==> ends_early(action),
{
}

/// Where the queue has been dropped, the task ends, and says that it ends early unless it has
/// reached the end of the shard.
pub proof fn law_dropped_queue_ends_the_task(task: &FetchStreamTask, action: FetchTaskAction)
    requires
        call_ensures(FetchStreamTask::on_queue_dropped, (task,), action),
    ensures
        task@.has_reached_eof ==> ends_silently(action),
        !task@.has_reached_eof ==> ends_early(action),
{
}

/// The two states are of tasks that serve the same request.
pub open spec fn serve_the_same(task: FetchStreamTaskView, other: FetchStreamTaskView) -> bool {
    &&& task.client_id == other.client_id
    &&& task.index_uid == other.index_uid
    &&& task.source_id == other.source_id
    &&& task.shard_id == other.shard_id
    &&& task.queue_id == other.queue_id
    &&& task.batch_num_bytes == other.batch_num_bytes
}

/// The last record of these bytes marks the end of the shard.
pub open spec fn end_with_eof(bytes: Seq<u8>, lengths: Seq<u32>) -> bool {
    &&& lengths.last() == 2
    &&& bytes[bytes.len() - 2] == 0
    &&& bytes[bytes.len() - 1] == 2
}

/// The response carries these bytes and lengths for the shard of the task, from the record at
/// position `from` on.
pub open spec fn carries_for(
    response: FetchResponseV2,
    task: FetchStreamTaskView,
    from: nat,
    bytes: Seq<u8>,
    lengths: Seq<u32>,
) -> bool {
    &&& response.index_uid@ == task.index_uid
    &&& response.source_id@ == task.source_id
    &&& response.shard_id == task.shard_id
    &&& response.mrecord_batch matches Some(batch)
    &&& bytes_contents(batch.mrecord_buffer) == bytes
    &&& batch.mrecord_lengths@ == lengths
    &&& response.from_position_exclusive matches Some(before)
    &&& from == 0 ==> before == Position::Beginning
    &&& from > 0 ==> (before matches Position::Offset(offset) && offset + 1 == from)
    &&& response.to_position_inclusive matches Some(last)
    &&& end_with_eof(bytes, lengths) ==> last == Position::Eof
    &&& !end_with_eof(bytes, lengths) ==> (last matches Position::Offset(offset) && offset + 1
        == from + lengths.len())
}

/// The last record of a batch is the end marker exactly where its bytes end with those of it.
proof fn lemma_ends_with_eof(batch: FilledBatchView)
    requires
        batch.wf(),
        batch.mrecord_buffer.len() > 0,
    ensures
        batch.last_mrecord() == eof_mrecord() <==> end_with_eof(
            batch.mrecord_buffer,
            batch.mrecord_lengths,
        ),
{
    let bytes = batch.mrecord_buffer;
    let last = batch.last_mrecord();
    if end_with_eof(bytes, batch.mrecord_lengths) {
        assert(last =~= seq![0u8, 2u8]);
    }
    if last == eof_mrecord() {
        assert(last.len() == 2 && last[0] == 0 && last[1] == 2);
    }
}

/// A batch with bytes is sent for the shard of the task, with the positions that it reaches from
/// and to, and the task is behind it then. A batch without bytes is not sent and does not move the
/// task. Either way the task serves what it served, and has drained its queue if the batch has.
pub proof fn law_batch_is_sent(
    task: &mut FetchStreamTask,
    batch: FilledBatch,
    action: FetchTaskAction,
)
    requires
        call_ensures(FetchStreamTask::on_batch, (task, batch), action),
        old(task)@.wf(),
        batch@.wf(),
        bytes_mut_contents(batch.mrecord_buffer).len() > 0 ==> old(task)@.from_position_inclusive
            + batch.mrecord_lengths@.len() <= u64::MAX,
    ensures
        serve_the_same(final(task)@, old(task)@),
        final(task)@.has_drained_queue == batch.has_drained_queue,
        ({
            let bytes = bytes_mut_contents(batch.mrecord_buffer);
            let lengths = batch.mrecord_lengths@;
            let from = old(task)@.from_position_inclusive;
            if bytes.len() > 0 {
                &&& final(task)@.from_position_inclusive == from + lengths.len()
                &&& final(task)@.has_reached_eof == (old(task)@.has_reached_eof || end_with_eof(
                    bytes,
                    lengths,
                ))
                &&& action matches FetchTaskAction::SendResponse(response)
                &&& carries_for(response, old(task)@, from, bytes, lengths)
            } else {
                &&& final(task)@.from_position_inclusive == from
                &&& final(task)@.has_reached_eof == old(task)@.has_reached_eof
                &&& old(task)@.has_reached_eof ==> ends_silently(action)
                &&& !old(task)@.has_reached_eof && batch.has_drained_queue
                    ==> action is AwaitNewRecords
                &&& !old(task)@.has_reached_eof && !batch.has_drained_queue ==> reads_from(
                    action,
                    from,
                )
            }
        }),
{
    if bytes_mut_contents(batch.mrecord_buffer).len() > 0 {
        lemma_ends_with_eof(batch@);
    }
}

/// Records that have been read are sent from the front, as many as a batch takes, and the task is
/// behind those that are sent then. Where none of them has bytes, nothing is sent and the task
/// waits where it is. The queue is drained where a batch takes them all.
pub proof fn law_mrecords_are_sent(
    task: &mut FetchStreamTask,
    mrecords: &[&[u8]],
    action: FetchTaskAction,
)
    requires
        call_ensures(FetchStreamTask::on_mrecords, (task, mrecords), action),
        old(task)@.wf(),
        old(task)@.from_position_inclusive + mrecords@.len() <= u64::MAX,
    ensures
        serve_the_same(final(task)@, old(task)@),
        exists|count: int|
            {
                let bytes = bytes_of_first(mrecords@, count);
                let from = old(task)@.from_position_inclusive;
                &&& #[trigger] is_cut_at(mrecords@, count, old(task)@.batch_num_bytes as int)
                &&& final(task)@.has_drained_queue == (count == mrecords@.len())
                &&& if bytes.len() > 0 {
                    &&& final(task)@.from_position_inclusive == from + count
                    &&& action matches FetchTaskAction::SendResponse(response)
                    &&& response.mrecord_batch matches Some(batch)
                    &&& batch.mrecord_lengths@.len() == count
                    &&& forall|i: int|
                        0 <= i < count ==> (#[trigger] batch.mrecord_lengths@[i]) as int
                            == mrecords@[i]@.len() % 0x1_0000_0000
                    &&& carries_for(response, old(task)@, from, bytes, batch.mrecord_lengths@)
                    &&& final(task)@.has_reached_eof == (old(task)@.has_reached_eof || end_with_eof(
                        bytes,
                        batch.mrecord_lengths@,
                    ))
                } else {
                    &&& count == mrecords@.len()
                    &&& final(task)@.from_position_inclusive == from
                    &&& final(task)@.has_reached_eof == old(task)@.has_reached_eof
                    &&& old(task)@.has_reached_eof ==> ends_silently(action)
                    &&& !old(task)@.has_reached_eof ==> action is AwaitNewRecords
                }
            },
{
    let contents = mrecord_contents(mrecords@);
    let num_bytes = old(task)@.batch_num_bytes;
    let batch = choose|batch: FilledBatchView|
        {
            &&& #[trigger] is_batch_of(batch, contents, num_bytes)
            &&& final(task)@ == old(task)@.after_batch(batch)
            &&& action@ == old(task)@.batch_action(batch)
        };
    lemma_batch_cuts_records(mrecords@, num_bytes, batch);
    lemma_batch_is_wf(contents, num_bytes, batch);
    if batch.mrecord_buffer.len() > 0 {
        lemma_ends_with_eof(batch);
    }
    assert(is_cut_at(mrecords@, batch.mrecord_lengths.len() as int, num_bytes as int));
}

/// A task serves the same client, shard and queue in every state of a run, in batches of the same
/// size.
pub proof fn law_run_serves_the_same(
    task: FetchStreamTaskView,
    events: Seq<FetchTaskEvent>,
    log: Seq<Seq<u8>>,
)
    requires
        is_run(task, events, log),
    ensures
        serve_the_same(run(task, events).0, task),
    decreases events.len(),
{
    if events.len() > 0 {
        law_run_serves_the_same(task, events.drop_last(), log);
    }
}

/// Every response of a run is for the index, the source and the shard that the request was for, and
/// it carries a batch.
pub proof fn law_responses_are_for_the_shard_of_the_request(
    request: OpenFetchStreamRequestView,
    batch_num_bytes: nat,
    events: Seq<FetchTaskEvent>,
    log: Seq<Seq<u8>>,
)
    requires
        is_run(initial_task(request, batch_num_bytes), events, log),
    ensures
        ({
            let sent = responses(initial_task(request, batch_num_bytes), events);
            forall|i: int|
                0 <= i < sent.len() ==> {
                    &&& (#[trigger] sent[i]).index_uid == request.index_uid
                    &&& sent[i].source_id == request.source_id
                    &&& sent[i].shard_id == request.shard_id
                    &&& sent[i].mrecord_batch is Some
                }
        }),
    decreases events.len(),
{
    let task = initial_task(request, batch_num_bytes);
    if events.len() > 0 {
        law_responses_are_for_the_shard_of_the_request(
            request,
            batch_num_bytes,
            events.drop_last(),
            log,
        );
        law_run_serves_the_same(task, events.drop_last(), log);
        let before = responses(task, events.drop_last());
        let sent = responses(task, events);
        assert forall|i: int| 0 <= i < sent.len() implies {
            &&& (#[trigger] sent[i]).index_uid == request.index_uid
            &&& sent[i].source_id == request.source_id
            &&& sent[i].shard_id == request.shard_id
            &&& sent[i].mrecord_batch is Some
        } by {
            if i < before.len() {
                assert(sent[i] == before[i]);
            }
        }
    }
}

} // verus!

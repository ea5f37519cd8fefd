//! What each operation of a multi-fetch stream does, in terms of what goes into it and what comes
//! out.
use vstd::prelude::*;

use crate::data_laws::{is_queue_of, lemma_queue_of_shard};
use crate::ingester_selection::{
    node_id_opt_view, order_ingesters, select_preferred_and_failover_ingesters,
};
use crate::message::{IngestV2Error, IngestV2Result};
use crate::multi_fetch::{subscription, MultiFetchStream, MultiFetchStreamView};
use crate::position::Position;
use crate::queue_id::{ClientId, IndexUid, NodeId, ShardId, SourceId};
use crate::retrying::{RetryParams, RetryingFetchStream, RetryingFetchStreamView};

verus! {

/// Where one replica is preferred to the other, it is the first to be streamed from, and the other
/// one is failed over to.
pub proof fn law_preferred_replica_comes_first(
    leader_id: NodeId,
    follower_id: NodeId,
    prefers_leader: bool,
    selection: (NodeId, Option<NodeId>),
)
    requires
        call_ensures(order_ingesters, (leader_id, follower_id, prefers_leader), selection),
    ensures
        selection.1 matches Some(failover_ingester_id) && {
            &&& prefers_leader ==> selection.0@ == leader_id@ && failover_ingester_id@
                == follower_id@
            &&& !prefers_leader ==> selection.0@ == follower_id@ && failover_ingester_id@
                == leader_id@
        },
{
}

/// The ingesters are the replicas of a shard, in the order in which they are to be tried by a node:
/// without a follower, the leader alone; a local leader first, else a local follower first; and
/// where neither is local, the one or the other first.
pub open spec fn are_replicas_in_order(
    ingester_ids: Seq<Seq<char>>,
    self_node_id: Seq<char>,
    leader_id: NodeId,
    follower_id_opt: Option<NodeId>,
) -> bool {
    match follower_id_opt {
        None => ingester_ids == seq![leader_id@],
        Some(follower_id) => {
            ||| ingester_ids == seq![leader_id@, follower_id@] && (leader_id@ == self_node_id
                || follower_id@ != self_node_id)
            ||| ingester_ids == seq![follower_id@, leader_id@] && leader_id@ != self_node_id
        },
    }
}

/// The selection is the replicas of the shard, the local one first.
pub proof fn law_selection_prefers_local_replica(
    self_node_id: &NodeId,
    leader_id: NodeId,
    follower_id_opt: Option<NodeId>,
    selection: (NodeId, Option<NodeId>),
)
    requires
        call_ensures(
            select_preferred_and_failover_ingesters,
            (self_node_id, leader_id, follower_id_opt),
            selection,
        ),
    ensures
        are_replicas_in_order(
            match selection.1 {
                None => seq![selection.0@],
                Some(failover_ingester_id) => seq![selection.0@, failover_ingester_id@],
            },
            self_node_id@,
            leader_id,
            follower_id_opt,
        ),
{
}

/// A stream that is created is for its node and its client, has its retry parameters, and is
/// subscribed to nothing.
pub proof fn law_new_stream_is_subscribed_to_nothing<H>(
    self_node_id: NodeId,
    client_id: ClientId,
    retry_params: RetryParams,
    stream: MultiFetchStream<H>,
    queue_id: Seq<char>,
)
    requires
        call_ensures(MultiFetchStream::<H>::new, (self_node_id, client_id, retry_params), stream),
    ensures
        stream@.self_node_id == self_node_id@,
        stream@.client_id == client_id@,
        stream@.retry_params.max_attempts == retry_params.max_attempts,
        !stream@.fetch_task_handles.contains_key(queue_id),
{
}

/// The two states are of streams for the same node and client, with the same retry parameters.
pub open spec fn subscribe_alike<H>(
    stream: MultiFetchStreamView<H>,
    other: MultiFetchStreamView<H>,
) -> bool {
    &&& stream.self_node_id == other.self_node_id
    &&& stream.client_id == other.client_id
    &&& stream.retry_params == other.retry_params
}

/// A subscription to a shard that the stream is subscribed to is refused. The error names the queue
/// of the shard, and nothing changes.
pub proof fn law_second_subscription_is_refused<H, F: FnOnce(RetryingFetchStream) -> H>(
    stream: &mut MultiFetchStream<H>,
    leader_id: NodeId,
    follower_id_opt: Option<NodeId>,
    index_uid: IndexUid,
    source_id: SourceId,
    shard_id: ShardId,
    from_position_exclusive: Position,
    spawn: F,
    result: IngestV2Result<()>,
    queue_id: Seq<char>,
)
    requires
        call_ensures(
            MultiFetchStream::<H>::subscribe::<F>,
            (
                stream,
                leader_id,
                follower_id_opt,
                index_uid,
                source_id,
                shard_id,
                from_position_exclusive,
                spawn,
            ),
            result,
        ),
        is_queue_of(queue_id, index_uid@, source_id@, shard_id),
        old(stream)@.fetch_task_handles.contains_key(queue_id),
    ensures
        result matches Err(IngestV2Error::Internal(message)) && message@
            == "stream has already subscribed to shard `"@ + queue_id + "`"@,
        subscribe_alike(final(stream)@, old(stream)@),
        final(stream)@.fetch_task_handles == old(stream)@.fetch_task_handles,
{
    lemma_queue_of_shard(queue_id, index_uid@, source_id@, shard_id);
}

/// The task streams the given shard from the given position on, for the client of the stream, from
/// the replicas, and has all the attempts of the stream before it.
pub open spec fn streams_shard<H>(
    task: RetryingFetchStreamView,
    stream: MultiFetchStreamView<H>,
    leader_id: NodeId,
    follower_id_opt: Option<NodeId>,
    index_uid: Seq<char>,
    source_id: Seq<char>,
    shard_id: ShardId,
    from_position_exclusive: Position,
) -> bool {
    &&& task.client_id == stream.client_id
    &&& task.index_uid == index_uid
    &&& task.source_id == source_id
    &&& task.shard_id == shard_id
    &&& task.from_position_exclusive == from_position_exclusive
    &&& task.max_attempts == stream.retry_params.max_attempts
    &&& task.num_attempts == 0
    &&& are_replicas_in_order(
        task.ingester_ids,
        stream.self_node_id,
        leader_id,
        follower_id_opt,
    )
}

/// A subscription to a shard that the stream is not subscribed to starts a task. That task streams
/// the shard from the position that was given, whether there is a follower or not, for the client
/// of the stream, and with its number of attempts. Its handle is kept behind the queue of the
/// shard, and those of the other shards stay as they are.
pub proof fn law_subscription_starts_its_task<H, F: FnOnce(RetryingFetchStream) -> H>(
    stream: &mut MultiFetchStream<H>,
    leader_id: NodeId,
    follower_id_opt: Option<NodeId>,
    index_uid: IndexUid,
    source_id: SourceId,
    shard_id: ShardId,
    from_position_exclusive: Position,
    spawn: F,
    result: IngestV2Result<()>,
    queue_id: Seq<char>,
)
    requires
        call_ensures(
            MultiFetchStream::<H>::subscribe::<F>,
            (
                stream,
                leader_id,
                follower_id_opt,
                index_uid,
                source_id,
                shard_id,
                from_position_exclusive,
                spawn,
            ),
            result,
        ),
        is_queue_of(queue_id, index_uid@, source_id@, shard_id),
        !old(stream)@.fetch_task_handles.contains_key(queue_id),
    ensures
        result is Ok,
        subscribe_alike(final(stream)@, old(stream)@),
        final(stream)@.fetch_task_handles.contains_key(queue_id),
        final(stream)@.fetch_task_handles.remove(queue_id) == old(stream)@.fetch_task_handles,
        exists|task: RetryingFetchStream|
            {
                &&& #[trigger] spawn.ensures(
                    (task,),
                    final(stream)@.fetch_task_handles[queue_id],
                )
                &&& streams_shard(
                    task@,
                    old(stream)@,
                    leader_id,
                    follower_id_opt,
                    index_uid@,
                    source_id@,
                    shard_id,
                    from_position_exclusive,
                )
            },
{
    lemma_queue_of_shard(queue_id, index_uid@, source_id@, shard_id);
    let (task, handle, prefers_leader) = choose|
        task: RetryingFetchStream,
        handle: H,
        prefers_leader: bool,
    |
        {
            &&& task@ == #[trigger] subscription(
                old(stream)@,
                leader_id@,
                node_id_opt_view(follower_id_opt),
                index_uid@,
                source_id@,
                shard_id,
                from_position_exclusive,
                prefers_leader,
            )
            &&& #[trigger] spawn.ensures((task,), handle)
            &&& final(stream)@ == old(stream)@.with_task(queue_id, handle)
        };
    assert(final(stream)@.fetch_task_handles[queue_id] == handle);
    assert(final(stream)@.fetch_task_handles.remove(queue_id)
        =~= old(stream)@.fetch_task_handles);
}

/// Unsubscribing hands out the handle of the task of the shard, if there is one, and keeps those of
/// the other shards.
pub proof fn law_unsubscribing_hands_out_the_task<H>(
    stream: &mut MultiFetchStream<H>,
    index_uid: &str,
    source_id: &str,
    shard_id: ShardId,
    result: IngestV2Result<Option<H>>,
    queue_id: Seq<char>,
    other_queue_id: Seq<char>,
)
    requires
        call_ensures(
            MultiFetchStream::<H>::unsubscribe,
            (stream, index_uid, source_id, shard_id),
            result,
        ),
        is_queue_of(queue_id, index_uid@, source_id@, shard_id),
        other_queue_id != queue_id,
    ensures
        subscribe_alike(final(stream)@, old(stream)@),
        result matches Ok(handle_opt) && {
            &&& old(stream)@.fetch_task_handles.contains_key(queue_id) ==> handle_opt == Some(
                old(stream)@.fetch_task_handles[queue_id],
            )
            &&& !old(stream)@.fetch_task_handles.contains_key(queue_id) ==> handle_opt is None
        },
        !final(stream)@.fetch_task_handles.contains_key(queue_id),
        final(stream)@.fetch_task_handles.contains_key(other_queue_id)
            == old(stream)@.fetch_task_handles.contains_key(other_queue_id),
        old(stream)@.fetch_task_handles.contains_key(other_queue_id)
            ==> final(stream)@.fetch_task_handles[other_queue_id]
            == old(stream)@.fetch_task_handles[other_queue_id],
{
    lemma_queue_of_shard(queue_id, index_uid@, source_id@, shard_id);
}

/// Resetting the stream ends every subscription, and hands out the handle of each task, as many as
/// there are tasks.
pub proof fn law_reset_hands_out_every_task<H>(
    stream: &mut MultiFetchStream<H>,
    handles: Vec<H>,
    queue_id: Seq<char>,
)
    requires
        call_ensures(MultiFetchStream::<H>::reset, (stream,), handles),
    ensures
        subscribe_alike(final(stream)@, old(stream)@),
        !final(stream)@.fetch_task_handles.contains_key(queue_id),
        old(stream)@.fetch_task_handles.contains_key(queue_id) ==> handles@.contains(
            old(stream)@.fetch_task_handles[queue_id],
        ),
        old(stream)@.fetch_task_handles.dom().finite(),
        handles@.len() == old(stream)@.fetch_task_handles.len(),
{
    let before = old(stream)@;
    let queue_ids = choose|queue_ids: Seq<Seq<char>>|
        {
            &&& #[trigger] queue_ids.no_duplicates()
            &&& queue_ids.len() == handles@.len()
            &&& forall|queue_id: Seq<char>|
                before.is_subscribed_to(queue_id) <==> #[trigger] queue_ids.contains(queue_id)
            &&& forall|i: int|
                0 <= i < handles@.len() ==> #[trigger] handles@[i]
                    == before.fetch_task_handles[queue_ids[i]]
        };
    queue_ids.unique_seq_to_set();
    vstd::seq_lib::seq_to_set_is_finite(queue_ids);
    assert(before.fetch_task_handles.dom() =~= queue_ids.to_set()) by {
        assert forall|id: Seq<char>| before.fetch_task_handles.dom().contains(id)
            == queue_ids.to_set().contains(id) by {
            assert(before.is_subscribed_to(id) <==> queue_ids.contains(id));
        }
    }
    if before.is_subscribed_to(queue_id) {
        assert(queue_ids.contains(queue_id));
        let k = choose|k: int| 0 <= k < queue_ids.len() && queue_ids[k] == queue_id;
        assert(handles@[k] == before.fetch_task_handles[queue_ids[k]]);
    }
}

} // verus!

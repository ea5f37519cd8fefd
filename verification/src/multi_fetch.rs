//! Many fetch streams combined into one.
use vstd::prelude::*;

use crate::fault_tolerant::node_id_views;
use crate::ingester_selection::{
    node_id_opt_view, select_preferred_and_failover_ingesters, selected_ingesters, selection_view,
};
use crate::message::{IngestV2Error, IngestV2ErrorView, IngestV2Result};
use crate::position::Position;
use crate::queue_id::{
    queue_id, spec_queue_id, ClientId, IndexUid, NodeId, QueueId, ShardId, SourceId,
};
use crate::retrying::{RetryParams, RetryingFetchStream, RetryingFetchStreamView};

verus! {

/// Combines multiple fetch streams originating from different ingesters into a single stream. It
/// tolerates the failure of ingesters and automatically fails over to replica shards.
///
/// Each shard that is subscribed to has a task, which the stream knows by its handle.
pub struct MultiFetchStream<H> {
    self_node_id: NodeId,
    client_id: ClientId,
    retry_params: RetryParams,
    /// The handle of each task, behind the queue of its shard.
    fetch_task_handles: Vec<(QueueId, H)>,
}

/// The state of a [`MultiFetchStream`].
#[verifier::ext_equal]
#[verifier::reject_recursive_types(H)]
pub struct MultiFetchStreamView<H> {
    pub self_node_id: Seq<char>,
    pub client_id: Seq<char>,
    pub retry_params: RetryParams,
    pub fetch_task_handles: Map<Seq<char>, H>,
}

/// The handle at a place is the one of this queue.
spec fn is_entry_of<H>(entries: Seq<(QueueId, H)>, i: int, queue_id: Seq<char>) -> bool {
    0 <= i < entries.len() && entries[i].0@ == queue_id
}

/// No queue occurs twice.
spec fn queues_are_distinct<H>(entries: Seq<(QueueId, H)>) -> bool {
    forall|i: int, j: int|
        0 <= i < j < entries.len() ==> (#[trigger] entries[i]).0@ != (#[trigger] entries[j]).0@
}

/// The handle of each queue.
spec fn entry_map<H>(entries: Seq<(QueueId, H)>) -> Map<Seq<char>, H> {
    Map::new(
        |queue_id: Seq<char>| exists|i: int| is_entry_of(entries, i, queue_id),
        |queue_id: Seq<char>| entries[choose|i: int| is_entry_of(entries, i, queue_id)].1,
    )
}

/// A queue and its handle are found in the map where they are found in the entries.
proof fn lemma_entry_is_mapped<H>(entries: Seq<(QueueId, H)>, i: int)
    requires
        queues_are_distinct(entries),
        0 <= i < entries.len(),
    ensures
        entry_map(entries).contains_key(entries[i].0@),
        entry_map(entries)[entries[i].0@] == entries[i].1,
{
    let queue_id = entries[i].0@;
    assert(is_entry_of(entries, i, queue_id));
    let chosen = choose|j: int| is_entry_of(entries, j, queue_id);
    assert(is_entry_of(entries, chosen, queue_id));
    if chosen < i {
        assert(entries[chosen].0@ != entries[i].0@);
    }
    if i < chosen {
        assert(entries[i].0@ != entries[chosen].0@);
    }
}

/// A new queue behind the others is a new key of the map.
proof fn lemma_push_inserts<H>(entries: Seq<(QueueId, H)>, entry: (QueueId, H))
    requires
        queues_are_distinct(entries),
        !entry_map(entries).contains_key(entry.0@),
    ensures
        queues_are_distinct(entries.push(entry)),
        entry_map(entries.push(entry)) == entry_map(entries).insert(entry.0@, entry.1),
{
    let pushed = entries.push(entry);
    assert forall|i: int, j: int| 0 <= i < j < pushed.len() implies (#[trigger] pushed[i]).0@ != (
    #[trigger] pushed[j]).0@ by {
        if j == entries.len() {
            assert(!is_entry_of(entries, i, entry.0@));
        } else {
            assert(entries[i].0@ != entries[j].0@);
        }
    }
    let map = entry_map(entries).insert(entry.0@, entry.1);
    assert forall|queue_id: Seq<char>| #[trigger] entry_map(pushed).contains_key(queue_id)
        == map.contains_key(queue_id) && (map.contains_key(queue_id) ==> entry_map(pushed)[queue_id]
        == map[queue_id]) by {
        lemma_entry_is_mapped(pushed, entries.len() as int);
        if exists|i: int| is_entry_of(entries, i, queue_id) {
            let i = choose|i: int| is_entry_of(entries, i, queue_id);
            assert(is_entry_of(pushed, i, queue_id));
            lemma_entry_is_mapped(entries, i);
            lemma_entry_is_mapped(pushed, i);
        } else if exists|i: int| is_entry_of(pushed, i, queue_id) {
            let i = choose|i: int| is_entry_of(pushed, i, queue_id);
            if i < entries.len() {
                assert(is_entry_of(entries, i, queue_id));
            }
        }
    }
    assert(entry_map(pushed) =~= map);
}

/// Without an entry, the map lacks its queue, and nothing else.
proof fn lemma_remove_removes<H>(entries: Seq<(QueueId, H)>, at: int)
    requires
        queues_are_distinct(entries),
        0 <= at < entries.len(),
    ensures
        queues_are_distinct(entries.remove(at)),
        entry_map(entries.remove(at)) == entry_map(entries).remove(entries[at].0@),
{
    let removed = entries.remove(at);
    let gone = entries[at].0@;
    assert forall|i: int, j: int| 0 <= i < j < removed.len() implies (#[trigger] removed[i]).0@ != (
    #[trigger] removed[j]).0@ by {
        let k = if i < at {
            i
        } else {
            i + 1
        };
        let l = if j < at {
            j
        } else {
            j + 1
        };
        assert(entries[k].0@ != entries[l].0@);
    }
    let map = entry_map(entries).remove(gone);
    assert forall|queue_id: Seq<char>| #[trigger] entry_map(removed).contains_key(queue_id)
        == map.contains_key(queue_id) && (map.contains_key(queue_id)
        ==> entry_map(removed)[queue_id] == map[queue_id]) by {
        if exists|i: int| is_entry_of(removed, i, queue_id) {
            let i = choose|i: int| is_entry_of(removed, i, queue_id);
            let k = if i < at {
                i
            } else {
                i + 1
            };
            assert(removed[i] == entries[k]);
            if k < at {
                assert(entries[k].0@ != entries[at].0@);
            } else {
                assert(entries[at].0@ != entries[k].0@);
            }
            lemma_entry_is_mapped(removed, i);
            lemma_entry_is_mapped(entries, k);
        } else if map.contains_key(queue_id) {
            let k = choose|k: int| is_entry_of(entries, k, queue_id);
            let i = if k < at {
                k
            } else {
                k - 1
            };
            assert(is_entry_of(removed, i, queue_id));
        }
    }
    assert(entry_map(removed) =~= map);
}

impl<H> View for MultiFetchStream<H> {
    type V = MultiFetchStreamView<H>;

    closed spec fn view(&self) -> MultiFetchStreamView<H> {
        MultiFetchStreamView {
            self_node_id: self.self_node_id@,
            client_id: self.client_id@,
            retry_params: self.retry_params,
            fetch_task_handles: entry_map(self.fetch_task_handles@),
        }
    }
}

/// The ingesters of a shard, in the order in which they are tried.
pub open spec fn ingester_list(selection: (Seq<char>, Option<Seq<char>>)) -> Seq<Seq<char>> {
    match selection.1 {
        Some(failover_ingester_id) => seq![selection.0, failover_ingester_id],
        None => seq![selection.0],
    }
}

/// What the consumer is told where it subscribes to a shard once more.
pub open spec fn already_subscribed_message(queue_id: Seq<char>) -> Seq<char> {
    "stream has already subscribed to shard `"@ + queue_id + "`"@
}

/// What the task of a shard is to do: to stream the records that follow a position, from the
/// ingesters that hold the shard.
pub open spec fn subscription<H>(
    stream: MultiFetchStreamView<H>,
    leader_id: Seq<char>,
    follower_id_opt: Option<Seq<char>>,
    index_uid: Seq<char>,
    source_id: Seq<char>,
    shard_id: ShardId,
    from_position_exclusive: Position,
    prefers_leader: bool,
) -> RetryingFetchStreamView {
    RetryingFetchStreamView {
        client_id: stream.client_id,
        index_uid,
        source_id,
        shard_id,
        from_position_exclusive,
        ingester_ids: ingester_list(
            selected_ingesters(
                stream.self_node_id,
                leader_id,
                follower_id_opt,
                prefers_leader,
            ),
        ),
        max_attempts: stream.retry_params.max_attempts as nat,
        num_attempts: 0,
    }
}

impl<H> MultiFetchStreamView<H> {
    /// There is a task for the shard of this queue.
    pub open spec fn is_subscribed_to(self, queue_id: Seq<char>) -> bool {
        self.fetch_task_handles.contains_key(queue_id)
    }

    /// The stream, with one task more.
    pub open spec fn with_task(self, queue_id: Seq<char>, handle: H) -> MultiFetchStreamView<H> {
        MultiFetchStreamView {
            fetch_task_handles: self.fetch_task_handles.insert(queue_id, handle),
            ..self
        }
    }

    /// The stream, without the task of this queue, if there is one.
    pub open spec fn without_task(self, queue_id: Seq<char>) -> MultiFetchStreamView<H> {
        MultiFetchStreamView {
            fetch_task_handles: self.fetch_task_handles.remove(queue_id),
            ..self
        }
    }

    /// The handle of the task of this queue, if there is one.
    pub open spec fn handle_of(self, queue_id: Seq<char>) -> Option<H> {
        if self.is_subscribed_to(queue_id) {
            Some(self.fetch_task_handles[queue_id])
        } else {
            None
        }
    }

    /// The stream, without any task.
    pub open spec fn without_tasks(self) -> MultiFetchStreamView<H> {
        MultiFetchStreamView { fetch_task_handles: Map::empty(), ..self }
    }

    /// These are the handles of all the tasks, in some order.
    pub open spec fn has_handles(self, handles: Seq<H>) -> bool {
        exists|queue_ids: Seq<Seq<char>>|
            {
                &&& #[trigger] queue_ids.no_duplicates()
                &&& queue_ids.len() == handles.len()
                &&& forall|queue_id: Seq<char>|
                    self.is_subscribed_to(queue_id) <==> #[trigger] queue_ids.contains(queue_id)
                &&& forall|i: int|
                    0 <= i < handles.len() ==> #[trigger] handles[i]
                        == self.fetch_task_handles[queue_ids[i]]
            }
    }
}

impl<H> MultiFetchStream<H> {
    #[verifier::type_invariant]
    spec fn type_inv(self) -> bool {
        queues_are_distinct(self.fetch_task_handles@)
    }

    /// Creates a stream that is subscribed to no shard.
    pub fn new(self_node_id: NodeId, client_id: ClientId, retry_params: RetryParams) -> (stream:
        Self)
        ensures
            stream@ == (MultiFetchStreamView {
                self_node_id: self_node_id@,
                client_id: client_id@,
                retry_params,
                fetch_task_handles: Map::<Seq<char>, H>::empty(),
            }),
    {
        let fetch_task_handles: Vec<(QueueId, H)> = Vec::new();
        assert(entry_map(fetch_task_handles@) =~= Map::empty());
        MultiFetchStream { self_node_id, client_id, retry_params, fetch_task_handles }
    }

    /// Returns the place of the handle of a queue, if there is one.
    fn find(&self, queue_id: &QueueId) -> (place: Option<usize>)
        ensures
            match place {
                Some(i) => is_entry_of(self.fetch_task_handles@, i as int, queue_id@),
                None => !self@.is_subscribed_to(queue_id@),
            },
    {
        let mut i: usize = 0;
        while i < self.fetch_task_handles.len()
            invariant
                i <= self.fetch_task_handles@.len(),
                forall|j: int| 0 <= j < i ==> !is_entry_of(self.fetch_task_handles@, j, queue_id@),
            decreases self.fetch_task_handles@.len() - i,
        {
            if self.fetch_task_handles[i].0 == *queue_id {
                return Some(i);
            }
            i = i + 1;
        }
        None
    }

    /// Subscribes to a shard and fails over to the replica if an error occurs. `spawn` starts the
    /// task that streams the records of the shard. It is called only where the stream is not
    /// subscribed to the shard yet: a subscription that is refused starts no task.
    pub fn subscribe<F: FnOnce(RetryingFetchStream) -> H>(
        &mut self,
        leader_id: NodeId,
        follower_id_opt: Option<NodeId>,
        index_uid: IndexUid,
        source_id: SourceId,
        shard_id: ShardId,
        from_position_exclusive: Position,
        spawn: F,
    ) -> (result: IngestV2Result<()>)
        requires
            forall|stream: RetryingFetchStream, prefers_leader: bool|
                !old(self)@.is_subscribed_to(spec_queue_id(index_uid@, source_id@, shard_id))
                    && stream@ == #[trigger] subscription(
                    old(self)@,
                    leader_id@,
                    node_id_opt_view(follower_id_opt),
                    index_uid@,
                    source_id@,
                    shard_id,
                    from_position_exclusive,
                    prefers_leader,
                ) ==> #[trigger] spawn.requires((stream,)),
        ensures
            ({
                let queue_id = spec_queue_id(index_uid@, source_id@, shard_id);
                if old(self)@.is_subscribed_to(queue_id) {
                    &&& result matches Err(error)
                    &&& error@ == IngestV2ErrorView::Internal(already_subscribed_message(queue_id))
                    &&& final(self)@ == old(self)@
                } else {
                    &&& result is Ok
                    &&& exists|stream: RetryingFetchStream, handle: H, prefers_leader: bool|
                        {
                            &&& stream@ == #[trigger] subscription(
                                old(self)@,
                                leader_id@,
                                node_id_opt_view(follower_id_opt),
                                index_uid@,
                                source_id@,
                                shard_id,
                                from_position_exclusive,
                                prefers_leader,
                            )
                            &&& #[trigger] spawn.ensures((stream,), handle)
                            &&& final(self)@ == old(self)@.with_task(queue_id, handle)
                        }
                }
            }),
    {
        proof {
            use_type_invariant(&*self);
        }
        let queue_id = queue_id(index_uid.as_str(), source_id.as_str(), shard_id);

        if let Some(place) = self.find(&queue_id) {
            proof {
                lemma_entry_is_mapped(self.fetch_task_handles@, place as int);
            }
            let message = "stream has already subscribed to shard `".to_owned().concat(
                queue_id.as_str(),
            ).concat("`");
            return Err(IngestV2Error::Internal(message));
        }
        let (preferred_ingester_id, failover_ingester_id_opt) =
            select_preferred_and_failover_ingesters(
            &self.self_node_id,
            leader_id,
            follower_id_opt,
        );
        let ghost prefers_leader = choose|prefers_leader: bool|
            selection_view((preferred_ingester_id, failover_ingester_id_opt))
                == #[trigger] selected_ingesters(
                self@.self_node_id,
                leader_id@,
                node_id_opt_view(follower_id_opt),
                prefers_leader,
            );
        let mut ingester_ids: Vec<NodeId> = Vec::new();
        ingester_ids.push(preferred_ingester_id);

        if let Some(failover_ingester_id) = failover_ingester_id_opt {
            ingester_ids.push(failover_ingester_id);
        }
        let stream = RetryingFetchStream::new(
            self.client_id.clone(),
            index_uid,
            source_id,
            shard_id,
            from_position_exclusive,
            ingester_ids,
            self.retry_params,
        );
        proof {
            let selection = selected_ingesters(
                self@.self_node_id,
                leader_id@,
                node_id_opt_view(follower_id_opt),
                prefers_leader,
            );
            assert(node_id_views(ingester_ids@) =~= ingester_list(selection));
            assert(stream@ == subscription(
                self@,
                leader_id@,
                node_id_opt_view(follower_id_opt),
                index_uid@,
                source_id@,
                shard_id,
                from_position_exclusive,
                prefers_leader,
            ));
        }
        let handle = spawn(stream);
        let mut fetch_task_handles: Vec<(QueueId, H)> = Vec::new();
        std::mem::swap(&mut fetch_task_handles, &mut self.fetch_task_handles);
        proof {
            lemma_push_inserts(fetch_task_handles@, (queue_id, handle));
        }
        fetch_task_handles.push((queue_id, handle));
        self.fetch_task_handles = fetch_task_handles;
        Ok(())
    }

    /// Unsubscribes from a shard. Returns the handle of its task, which is to be aborted, if the
    /// stream was subscribed to the shard.
    pub fn unsubscribe(&mut self, index_uid: &str, source_id: &str, shard_id: ShardId) -> (result:
        IngestV2Result<Option<H>>)
        ensures
            ({
                let queue_id = spec_queue_id(index_uid@, source_id@, shard_id);
                &&& result matches Ok(handle_opt)
                &&& handle_opt == old(self)@.handle_of(queue_id)
                &&& final(self)@ == old(self)@.without_task(queue_id)
            }),
    {
        proof {
            use_type_invariant(&*self);
        }
        let queue_id = queue_id(index_uid, source_id, shard_id);

        match self.find(&queue_id) {
            Some(place) => {
                let mut fetch_task_handles: Vec<(QueueId, H)> = Vec::new();
                std::mem::swap(&mut fetch_task_handles, &mut self.fetch_task_handles);
                proof {
                    lemma_entry_is_mapped(fetch_task_handles@, place as int);
                    lemma_remove_removes(fetch_task_handles@, place as int);
                }
                let (_queue_id, fetch_task_handle) = fetch_task_handles.remove(place);
                self.fetch_task_handles = fetch_task_handles;
                Ok(Some(fetch_task_handle))
            },
            None => {
                assert(self@.fetch_task_handles.remove(queue_id@) =~= self@.fetch_task_handles);
                Ok(None)
            },
        }
    }

    /// Resets the stream: it is subscribed to no shard any more. Returns the handles of all the
    /// tasks, which are to be aborted.
    pub fn reset(&mut self) -> (handles: Vec<H>)
        ensures
            old(self)@.has_handles(handles@),
            final(self)@ == old(self)@.without_tasks(),
    {
        proof {
            use_type_invariant(&*self);
        }
        let mut fetch_task_handles: Vec<(QueueId, H)> = Vec::new();
        std::mem::swap(&mut fetch_task_handles, &mut self.fetch_task_handles);
        assert(entry_map(self.fetch_task_handles@) =~= Map::empty());

        let ghost entries = fetch_task_handles@;
        let mut handles: Vec<H> = Vec::new();
        while fetch_task_handles.len() > 0
            invariant
                fetch_task_handles@.len() + handles@.len() == entries.len(),
                fetch_task_handles@ == entries.take(fetch_task_handles@.len() as int),
                forall|i: int|
                    0 <= i < handles@.len() ==> #[trigger] handles@[i] == entries[entries.len() - 1
                        - i].1,
            decreases fetch_task_handles@.len(),
        {
            if let Some((_queue_id, fetch_task_handle)) = fetch_task_handles.pop() {
                handles.push(fetch_task_handle);
            }
        }
        proof {
            let queue_ids = Seq::new(
                entries.len(),
                |i: int| entries[entries.len() - 1 - i].0@,
            );
            assert forall|queue_id: Seq<char>|
                old(self)@.is_subscribed_to(queue_id) <==> #[trigger] queue_ids.contains(
                    queue_id,
                ) by {
                if old(self)@.is_subscribed_to(queue_id) {
                    let i = choose|i: int| is_entry_of(entries, i, queue_id);
                    assert(queue_ids[entries.len() - 1 - i] == queue_id);
                }
                if queue_ids.contains(queue_id) {
                    let i = choose|i: int| 0 <= i < queue_ids.len() && queue_ids[i] == queue_id;
                    lemma_entry_is_mapped(entries, entries.len() - 1 - i);
                }
            }
            assert forall|i: int| 0 <= i < handles@.len() implies #[trigger] handles@[i] == old(
                self,
            )@.fetch_task_handles[queue_ids[i]] by {
                lemma_entry_is_mapped(entries, entries.len() - 1 - i);
            }
            assert(queue_ids.no_duplicates());
        }
        handles
    }
}

/// Unsubscribing undoes subscribing: it gives back the handle of the task that was started, and
/// leaves the stream as it was.
pub proof fn law_unsubscribe_undoes_subscribe<H>(
    stream: MultiFetchStreamView<H>,
    queue_id: Seq<char>,
    handle: H,
)
    requires
        !stream.is_subscribed_to(queue_id),
    ensures
        stream.with_task(queue_id, handle).handle_of(queue_id) == Some(handle),
        stream.with_task(queue_id, handle).without_task(queue_id) == stream,
{
    assert(stream.with_task(queue_id, handle).without_task(queue_id) =~= stream);
}

/// A shard that is unsubscribed from, or any shard of a stream that is reset, can be subscribed to
/// again.
pub proof fn law_shard_can_be_subscribed_to_again<H>(
    stream: MultiFetchStreamView<H>,
    queue_id: Seq<char>,
)
    ensures
        !stream.without_task(queue_id).is_subscribed_to(queue_id),
        !stream.without_tasks().is_subscribed_to(queue_id),
{
}

/// To unsubscribe from a shard that the stream is not subscribed to changes nothing.
pub proof fn law_unsubscribe_is_idempotent<H>(
    stream: MultiFetchStreamView<H>,
    queue_id: Seq<char>,
)
    ensures
        !stream.is_subscribed_to(queue_id) ==> stream.without_task(queue_id) == stream,
        stream.without_task(queue_id).without_task(queue_id) == stream.without_task(queue_id),
        stream.without_task(queue_id).handle_of(queue_id) is None,
{
    assert(stream.without_task(queue_id).without_task(queue_id) =~= stream.without_task(queue_id));
    if !stream.is_subscribed_to(queue_id) {
        assert(stream.without_task(queue_id) =~= stream);
    }
}

/// Subscribing to a shard, or unsubscribing from it, leaves the tasks of the other shards alone.
pub proof fn law_shards_are_independent<H>(
    stream: MultiFetchStreamView<H>,
    queue_id: Seq<char>,
    other_queue_id: Seq<char>,
    handle: H,
)
    requires
        queue_id != other_queue_id,
    ensures
        stream.with_task(queue_id, handle).handle_of(other_queue_id) == stream.handle_of(
            other_queue_id,
        ),
        stream.without_task(queue_id).handle_of(other_queue_id) == stream.handle_of(
            other_queue_id,
        ),
{
}

/// The task of a shard streams from its replicas alone, the local one first, and has all of its
/// attempts before it.
pub proof fn law_subscription_streams_from_replicas<H>(
    stream: MultiFetchStreamView<H>,
    leader_id: Seq<char>,
    follower_id_opt: Option<Seq<char>>,
    index_uid: Seq<char>,
    source_id: Seq<char>,
    shard_id: ShardId,
    from_position_exclusive: Position,
    prefers_leader: bool,
)
    ensures
        ({
            let task = subscription(
                stream,
                leader_id,
                follower_id_opt,
                index_uid,
                source_id,
                shard_id,
                from_position_exclusive,
                prefers_leader,
            );
            &&& task.num_attempts == 0
            &&& task.ingester_ids.to_set() == (match follower_id_opt {
                Some(follower_id) => set![leader_id, follower_id],
                None => set![leader_id],
            })
            &&& leader_id == stream.self_node_id || follower_id_opt == Some(stream.self_node_id)
                ==> task.ingester_ids[0] == stream.self_node_id
        }),
{
    let selection = selected_ingesters(
        stream.self_node_id,
        leader_id,
        follower_id_opt,
        prefers_leader,
    );
    let ingester_ids = ingester_list(selection);
    match follower_id_opt {
        Some(follower_id) => {
            assert(ingester_ids[0] == selection.0 && ingester_ids[1] == selection.1->0);
            assert(ingester_ids.to_set() =~= set![leader_id, follower_id]);
        },
        None => {
            assert(ingester_ids[0] == leader_id);
            assert(ingester_ids.to_set() =~= set![leader_id]);
        },
    }
}

/// A call that changes which shards a stream is subscribed to.
pub enum SubscriptionCall<H> {
    /// Subscribes to the shard of a queue. Where a task is started, this is its handle.
    Subscribe { queue_id: Seq<char>, handle: H },
    Unsubscribe { queue_id: Seq<char> },
    Reset,
}

impl<H> SubscriptionCall<H> {
    /// The call subscribes to the shard of this queue.
    pub open spec fn subscribes_to(self, queue_id: Seq<char>) -> bool {
        self is Subscribe && self->Subscribe_queue_id == queue_id
    }

    /// The call ends the subscription to the shard of this queue, and hands out the handle of its
    /// task to be aborted.
    pub open spec fn ends(self, queue_id: Seq<char>) -> bool {
        match self {
            SubscriptionCall::Subscribe { .. } => false,
            SubscriptionCall::Unsubscribe { queue_id: other } => other == queue_id,
            SubscriptionCall::Reset => true,
        }
    }
}

impl<H> MultiFetchStreamView<H> {
    /// The stream after a call. A shard that is subscribed to is not subscribed to again.
    pub open spec fn after_call(self, call: SubscriptionCall<H>) -> MultiFetchStreamView<H> {
        match call {
            SubscriptionCall::Subscribe { queue_id, handle } => if self.is_subscribed_to(
                queue_id,
            ) {
                self
            } else {
                self.with_task(queue_id, handle)
            },
            SubscriptionCall::Unsubscribe { queue_id } => self.without_task(queue_id),
            SubscriptionCall::Reset => self.without_tasks(),
        }
    }

    /// The stream after a sequence of calls.
    pub open spec fn after_calls(self, calls: Seq<SubscriptionCall<H>>) -> MultiFetchStreamView<H>
        decreases calls.len(),
    {
        if calls.len() == 0 {
            self
        } else {
            self.after_calls(calls.drop_last()).after_call(calls.last())
        }
    }

    /// The call at a place subscribes to the shard of a queue, and starts a task for it.
    pub open spec fn starts_task(
        self,
        calls: Seq<SubscriptionCall<H>>,
        i: int,
        queue_id: Seq<char>,
    ) -> bool {
        &&& 0 <= i < calls.len()
        &&& calls[i].subscribes_to(queue_id)
        &&& !self.after_calls(calls.take(i)).is_subscribed_to(queue_id)
    }

    /// The task that the call at a place started for the shard of a queue has not been aborted by
    /// the calls behind it.
    pub open spec fn has_live_task(
        self,
        calls: Seq<SubscriptionCall<H>>,
        i: int,
        queue_id: Seq<char>,
    ) -> bool {
        &&& self.starts_task(calls, i, queue_id)
        &&& forall|j: int| i < j < calls.len() ==> !(#[trigger] calls[j]).ends(queue_id)
    }
}

/// What a sequence of calls does to the task that one of them started: as long as none of the
/// others ends it, its handle is the one of its shard, and no other task is alive for the shard.
proof fn lemma_live_task_is_the_only_one<H>(
    stream: MultiFetchStreamView<H>,
    calls: Seq<SubscriptionCall<H>>,
    queue_id: Seq<char>,
)
    requires
        !stream.is_subscribed_to(queue_id),
    ensures
        forall|i: int| #[trigger]
            stream.has_live_task(calls, i, queue_id) ==> stream.after_calls(calls).handle_of(
                queue_id,
            ) == Some(calls[i]->handle),
        forall|i: int, j: int| #[trigger]
            stream.has_live_task(calls, i, queue_id) && #[trigger] stream.has_live_task(
                calls,
                j,
                queue_id,
            ) ==> i == j,
        stream.after_calls(calls).is_subscribed_to(queue_id) ==> exists|i: int|
            stream.has_live_task(calls, i, queue_id),
    decreases calls.len(),
{
    if calls.len() > 0 {
        let head = calls.drop_last();
        let call = calls.last();
        let last = calls.len() - 1;
        lemma_live_task_is_the_only_one(stream, head, queue_id);
        assert(calls.take(last) =~= head);
        assert forall|i: int| 0 <= i < last implies #[trigger] calls.take(i) == head.take(i) by {
            assert(calls.take(i) =~= head.take(i));
        }
        // A task that lives after all calls lived before the last, unless the last started it.
        assert forall|i: int| #[trigger] stream.has_live_task(calls, i, queue_id) && i
            < last implies stream.has_live_task(head, i, queue_id) && !call.ends(queue_id) by {
            assert(calls.take(i) == head.take(i));
            assert(head[i] == calls[i]);
            assert(!calls[last].ends(queue_id));
            assert forall|j: int| i < j < head.len() implies !(#[trigger] head[j]).ends(
                queue_id,
            ) by {
                assert(!calls[j].ends(queue_id));
            }
        }
        // A task that lived before the last call lives on, unless that call ends it.
        assert forall|i: int| #[trigger]
            stream.has_live_task(head, i, queue_id) && !call.ends(
                queue_id,
            ) implies stream.has_live_task(calls, i, queue_id) by {
            assert(calls.take(i) == head.take(i));
            assert(head[i] == calls[i]);
            assert forall|j: int| i < j < calls.len() implies !(#[trigger] calls[j]).ends(
                queue_id,
            ) by {
                if j < last {
                    assert(!head[j].ends(queue_id));
                }
            }
        }
        if stream.after_calls(calls).is_subscribed_to(queue_id) {
            if stream.after_calls(head).is_subscribed_to(queue_id) {
                let i = choose|i: int| stream.has_live_task(head, i, queue_id);
                assert(stream.has_live_task(calls, i, queue_id));
            } else {
                assert(stream.has_live_task(calls, last, queue_id));
            }
        }
    }
}

/// Whatever the calls on a stream that starts without tasks: it is subscribed to a shard if and
/// only if one of them subscribed to it, and was not refused, and none behind that one unsubscribed
/// from the shard or reset the stream.
pub proof fn law_subscribed_since_last_subscribe<H>(
    stream: MultiFetchStreamView<H>,
    calls: Seq<SubscriptionCall<H>>,
    queue_id: Seq<char>,
)
    requires
        stream.fetch_task_handles == Map::<Seq<char>, H>::empty(),
    ensures
        stream.after_calls(calls).is_subscribed_to(queue_id) <==> exists|i: int|
            stream.has_live_task(calls, i, queue_id),
{
    lemma_live_task_is_the_only_one(stream, calls, queue_id);
    if exists|i: int| stream.has_live_task(calls, i, queue_id) {
        let i = choose|i: int| stream.has_live_task(calls, i, queue_id);
        assert(stream.has_live_task(calls, i, queue_id));
    }
}

/// Whatever the calls on a stream that starts without tasks: a shard has at most one task that has
/// not been aborted.
pub proof fn law_one_task_per_shard<H>(
    stream: MultiFetchStreamView<H>,
    calls: Seq<SubscriptionCall<H>>,
    queue_id: Seq<char>,
    i: int,
    j: int,
)
    requires
        stream.fetch_task_handles == Map::<Seq<char>, H>::empty(),
        stream.has_live_task(calls, i, queue_id),
        stream.has_live_task(calls, j, queue_id),
    ensures
        i == j,
{
    lemma_live_task_is_the_only_one(stream, calls, queue_id);
}

/// Whatever the calls on a stream that starts without tasks: the task of a shard can be aborted as
/// long as it lives, for the stream holds its handle. This is the handle that unsubscribing from
/// the shard, and resetting the stream, hand out.
pub proof fn law_live_task_can_be_aborted<H>(
    stream: MultiFetchStreamView<H>,
    calls: Seq<SubscriptionCall<H>>,
    queue_id: Seq<char>,
    i: int,
    handles: Seq<H>,
)
    requires
        stream.fetch_task_handles == Map::<Seq<char>, H>::empty(),
        stream.has_live_task(calls, i, queue_id),
        stream.after_calls(calls).has_handles(handles),
    ensures
        stream.after_calls(calls).handle_of(queue_id) == Some(calls[i]->handle),
        handles.contains(calls[i]->handle),
{
    lemma_live_task_is_the_only_one(stream, calls, queue_id);
    let end = stream.after_calls(calls);
    let queue_ids = choose|queue_ids: Seq<Seq<char>>|
        {
            &&& #[trigger] queue_ids.no_duplicates()
            &&& queue_ids.len() == handles.len()
            &&& forall|queue_id: Seq<char>|
                end.is_subscribed_to(queue_id) <==> #[trigger] queue_ids.contains(queue_id)
            &&& forall|i: int|
                0 <= i < handles.len() ==> #[trigger] handles[i]
                    == end.fetch_task_handles[queue_ids[i]]
        };
    assert(end.is_subscribed_to(queue_id));
    assert(queue_ids.contains(queue_id));
    let k = choose|k: int| 0 <= k < queue_ids.len() && queue_ids[k] == queue_id;
    assert(handles[k] == end.fetch_task_handles[queue_ids[k]]);
}

} // verus!

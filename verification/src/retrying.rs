//! Attempts to follow the records of a shard, one after the other, until its end is reached.
use vstd::prelude::*;

use crate::fault_tolerant::{
    node_id_views, FaultTolerantFetchStream, FaultTolerantFetchStreamView,
};
use crate::position::Position;
use crate::queue_id::{ClientId, IndexUid, NodeId, ShardId, SourceId};

verus! {

/// How often an operation is attempted.
#[derive(Clone, Copy, Debug, PartialEq, Eq)]
pub struct RetryParams {
    pub max_attempts: usize,
}

/// What a retrying fetch stream has to have done next.
pub enum RetryAction {
    /// Run an attempt. Answered by [`RetryingFetchStream::on_attempt_finished`].
    Attempt(FaultTolerantFetchStream),
    /// Wait for as long as is due after this many attempts. Answered by
    /// [`RetryingFetchStream::next_attempt`].
    Sleep { num_attempts: usize },
    /// Nothing is left to do.
    Finish,
}

/// What a [`RetryAction`] asks for.
#[verifier::ext_equal]
pub enum RetryActionView {
    Attempt(FaultTolerantFetchStreamView),
    Sleep { num_attempts: nat },
    Finish,
}

impl View for RetryAction {
    type V = RetryActionView;

    open spec fn view(&self) -> RetryActionView {
        match self {
            RetryAction::Attempt(stream) => RetryActionView::Attempt(stream@),
            RetryAction::Sleep { num_attempts } => RetryActionView::Sleep {
                num_attempts: *num_attempts as nat,
            },
            RetryAction::Finish => RetryActionView::Finish,
        }
    }
}

/// Performs multiple fault-tolerant fetch stream attempts until the stream reaches
/// the end of the shard.
pub struct RetryingFetchStream {
    client_id: ClientId,
    index_uid: IndexUid,
    source_id: SourceId,
    shard_id: ShardId,
    /// The position that the consumer has been brought to.
    from_position_exclusive: Position,
    /// The ingesters that hold the shard, in the order in which they are tried.
    ingester_ids: Vec<NodeId>,
    max_attempts: usize,
    /// The number of attempts that have been started.
    num_attempts: usize,
}

/// The state of a [`RetryingFetchStream`].
#[verifier::ext_equal]
pub struct RetryingFetchStreamView {
    pub client_id: Seq<char>,
    pub index_uid: Seq<char>,
    pub source_id: Seq<char>,
    pub shard_id: ShardId,
    pub from_position_exclusive: Position,
    pub ingester_ids: Seq<Seq<char>>,
    pub max_attempts: nat,
    pub num_attempts: nat,
}

impl View for RetryingFetchStream {
    type V = RetryingFetchStreamView;

    closed spec fn view(&self) -> RetryingFetchStreamView {
        RetryingFetchStreamView {
            client_id: self.client_id@,
            index_uid: self.index_uid@,
            source_id: self.source_id@,
            shard_id: self.shard_id,
            from_position_exclusive: self.from_position_exclusive,
            ingester_ids: node_id_views(self.ingester_ids@),
            max_attempts: self.max_attempts as nat,
            num_attempts: self.num_attempts as nat,
        }
    }
}

impl RetryingFetchStreamView {
    /// An attempt: over all the ingesters, from the position that the consumer has been brought to.
    pub open spec fn attempt(self) -> FaultTolerantFetchStreamView {
        FaultTolerantFetchStreamView {
            client_id: self.client_id,
            index_uid: self.index_uid,
            source_id: self.source_id,
            shard_id: self.shard_id,
            from_position_exclusive: self.from_position_exclusive,
            to_position_inclusive: self.from_position_exclusive,
            ingester_ids: self.ingester_ids,
            ingester_idx: 0,
        }
    }

    /// The next attempt is started, if there is one left.
    pub open spec fn after_delay(self) -> (RetryingFetchStreamView, RetryActionView) {
        if self.num_attempts < self.max_attempts {
            (
                RetryingFetchStreamView { num_attempts: self.num_attempts + 1, ..self },
                RetryActionView::Attempt(self.attempt()),
            )
        } else {
            (self, RetryActionView::Finish)
        }
    }

    /// An attempt has brought the consumer to a position. At the end of the shard nothing is left
    /// to do; anywhere else a delay is due, after the last attempt too.
    pub open spec fn after_attempt(self, from_position_exclusive: Position) -> (
        RetryingFetchStreamView,
        RetryActionView,
    ) {
        (
            RetryingFetchStreamView { from_position_exclusive, ..self },
            if from_position_exclusive == Position::Eof {
                RetryActionView::Finish
            } else {
                RetryActionView::Sleep { num_attempts: self.num_attempts }
            },
        )
    }
}

impl RetryingFetchStream {
    /// Creates a stream of the records of a shard that follow a position, from the given ingesters,
    /// which each attempt tries in this order.
    pub fn new(
        client_id: ClientId,
        index_uid: IndexUid,
        source_id: SourceId,
        shard_id: ShardId,
        from_position_exclusive: Position,
        ingester_ids: Vec<NodeId>,
        retry_params: RetryParams,
    ) -> (stream: RetryingFetchStream)
        ensures
            stream@ == (RetryingFetchStreamView {
                client_id: client_id@,
                index_uid: index_uid@,
                source_id: source_id@,
                shard_id,
                from_position_exclusive,
                ingester_ids: node_id_views(ingester_ids@),
                max_attempts: retry_params.max_attempts as nat,
                num_attempts: 0,
            }),
    {
        RetryingFetchStream {
            client_id,
            index_uid,
            source_id,
            shard_id,
            from_position_exclusive,
            ingester_ids,
            max_attempts: retry_params.max_attempts,
            num_attempts: 0,
        }
    }

    /// Starts the first attempt, or the one that is due once a delay has elapsed.
    pub fn next_attempt(&mut self) -> (action: RetryAction)
        ensures
            (final(self)@, action@) == old(self)@.after_delay(),
    {
        if self.num_attempts >= self.max_attempts {
            return RetryAction::Finish;
        }
        self.num_attempts = self.num_attempts + 1;
        let ingester_ids = self.ingester_ids.clone();
        assert(node_id_views(ingester_ids@) =~= node_id_views(self.ingester_ids@));
        RetryAction::Attempt(
            FaultTolerantFetchStream::new(
                self.client_id.clone(),
                self.index_uid.clone(),
                self.source_id.clone(),
                self.shard_id,
                self.from_position_exclusive,
                ingester_ids,
            ),
        )
    }

    /// The attempt that was handed out has been closed.
    pub fn on_attempt_finished(&mut self, attempt: FaultTolerantFetchStream) -> (action:
        RetryAction)
        ensures
            (final(self)@, action@) == old(self)@.after_attempt(attempt@.from_position_exclusive),
    {
        self.from_position_exclusive = attempt.from_position_exclusive();

        if self.from_position_exclusive == Position::Eof {
            RetryAction::Finish
        } else {
            RetryAction::Sleep { num_attempts: self.num_attempts }
        }
    }
}

} // verus!

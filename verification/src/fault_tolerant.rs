//! One attempt to follow the records of a shard, over all the ingesters that hold it.
//!
//! The stream itself only decides. It hands out one [`FetchStreamAction`] after the other, and
//! takes back what became of it, through the method that the action names.
use vstd::prelude::*;

use crate::message::{
    FetchResponseV2, FetchResponseV2View, FetchStreamError, FetchStreamErrorView, IngestV2Error,
    IngestV2ErrorView, IngestV2Result, OpenFetchStreamRequest, OpenFetchStreamRequestView,
};
use crate::position::Position;
use crate::queue_id::{ClientId, IndexUid, NodeId, ShardId, SourceId};

verus! {

/// What a fault-tolerant fetch stream has to have done next.
pub enum FetchStreamAction {
    /// Look an ingester up in the pool. Answered by
    /// [`FaultTolerantFetchStream::on_ingester_looked_up`].
    LookUpIngester { ingester_id: NodeId },
    /// Open a fetch stream from the ingester that has been looked up. Answered by
    /// [`FaultTolerantFetchStream::on_stream_opened`].
    OpenFetchStream(OpenFetchStreamRequest),
    /// Wait for what comes next in the stream that has been opened. Answered by
    /// [`FaultTolerantFetchStream::on_response`].
    AwaitResponse,
    /// Send a response to the consumer. Answered by
    /// [`FaultTolerantFetchStream::on_response_sent`].
    SendResponse(FetchResponseV2),
    /// Send the error, if there is one, to the consumer, whether it is still there or not, and end
    /// the attempt.
    Close(Option<FetchStreamError>),
}

/// What a [`FetchStreamAction`] asks for.
#[verifier::ext_equal]
pub enum FetchStreamActionView {
    LookUpIngester { ingester_id: Seq<char> },
    OpenFetchStream(OpenFetchStreamRequestView),
    AwaitResponse,
    SendResponse(FetchResponseV2View),
    Close(Option<FetchStreamErrorView>),
}

impl View for FetchStreamAction {
    type V = FetchStreamActionView;

    open spec fn view(&self) -> FetchStreamActionView {
        match self {
            FetchStreamAction::LookUpIngester { ingester_id } =>
                FetchStreamActionView::LookUpIngester { ingester_id: ingester_id@ },
            FetchStreamAction::OpenFetchStream(request) => FetchStreamActionView::OpenFetchStream(
                request@,
            ),
            FetchStreamAction::AwaitResponse => FetchStreamActionView::AwaitResponse,
            FetchStreamAction::SendResponse(response) => FetchStreamActionView::SendResponse(
                response@,
            ),
            FetchStreamAction::Close(error_opt) => FetchStreamActionView::Close(
                match error_opt {
                    Some(error) => Some(error@),
                    None => None,
                },
            ),
        }
    }
}

/// Streams records from the preferred ingester and fails over to the other ingester if an error
/// occurs.
pub struct FaultTolerantFetchStream {
    client_id: ClientId,
    index_uid: IndexUid,
    source_id: SourceId,
    shard_id: ShardId,
    /// The position that the consumer has been brought to.
    from_position_exclusive: Position,
    /// The position that the consumer is brought to by the response that was handed out last.
    to_position_inclusive: Position,
    /// The ingesters that hold the shard, in the order in which they are tried.
    ingester_ids: Vec<NodeId>,
    /// The ingester that is being tried.
    ingester_idx: usize,
}

/// The state of a [`FaultTolerantFetchStream`].
#[verifier::ext_equal]
pub struct FaultTolerantFetchStreamView {
    pub client_id: Seq<char>,
    pub index_uid: Seq<char>,
    pub source_id: Seq<char>,
    pub shard_id: ShardId,
    pub from_position_exclusive: Position,
    pub to_position_inclusive: Position,
    pub ingester_ids: Seq<Seq<char>>,
    pub ingester_idx: nat,
}

/// The views of node identifiers.
pub open spec fn node_id_views(node_ids: Seq<NodeId>) -> Seq<Seq<char>> {
    node_ids.map_values(|node_id: NodeId| node_id@)
}

impl View for FaultTolerantFetchStream {
    type V = FaultTolerantFetchStreamView;

    closed spec fn view(&self) -> FaultTolerantFetchStreamView {
        FaultTolerantFetchStreamView {
            client_id: self.client_id@,
            index_uid: self.index_uid@,
            source_id: self.source_id@,
            shard_id: self.shard_id,
            from_position_exclusive: self.from_position_exclusive,
            to_position_inclusive: self.to_position_inclusive,
            ingester_ids: node_id_views(self.ingester_ids@),
            ingester_idx: self.ingester_idx as nat,
        }
    }
}

impl FaultTolerantFetchStreamView {
    /// There is an ingester that is being tried.
    pub open spec fn has_ingester(self) -> bool {
        self.ingester_idx < self.ingester_ids.len()
    }

    /// There is an ingester to fail over to.
    pub open spec fn has_failover(self) -> bool {
        self.ingester_idx + 1 < self.ingester_ids.len()
    }

    /// The stream, with the next ingester being tried.
    pub open spec fn failed_over(self) -> FaultTolerantFetchStreamView {
        FaultTolerantFetchStreamView { ingester_idx: self.ingester_idx + 1, ..self }
    }

    /// Tries the current ingester.
    pub open spec fn try_ingester(self) -> FetchStreamActionView {
        FetchStreamActionView::LookUpIngester {
            ingester_id: self.ingester_ids[self.ingester_idx as int],
        }
    }

    /// What the consumer is told where the stream is closed because of an error.
    pub open spec fn error(self, ingest_error: IngestV2ErrorView) -> FetchStreamErrorView {
        FetchStreamErrorView {
            index_uid: self.index_uid,
            source_id: self.source_id,
            shard_id: self.shard_id,
            ingest_error,
        }
    }

    /// What is asked of an ingester: the records behind the position that the consumer has been
    /// brought to.
    pub open spec fn request(self) -> OpenFetchStreamRequestView {
        OpenFetchStreamRequestView {
            client_id: self.client_id,
            index_uid: self.index_uid,
            source_id: self.source_id,
            shard_id: self.shard_id,
            from_position_exclusive: Some(self.from_position_exclusive),
        }
    }

    /// The first action: to try the first ingester, if there is one.
    pub open spec fn start(self) -> FetchStreamActionView {
        if self.has_ingester() {
            self.try_ingester()
        } else {
            FetchStreamActionView::Close(None)
        }
    }

    /// The current ingester has no more to give: the next one is tried, or the stream is closed,
    /// with an error where there has been one.
    pub open spec fn after_ingester(self, ingest_error_opt: Option<IngestV2ErrorView>) -> (
        FaultTolerantFetchStreamView,
        FetchStreamActionView,
    ) {
        if self.has_failover() {
            (self.failed_over(), self.failed_over().try_ingester())
        } else {
            (
                self,
                FetchStreamActionView::Close(
                    match ingest_error_opt {
                        Some(ingest_error) => Some(self.error(ingest_error)),
                        None => None,
                    },
                ),
            )
        }
    }

    /// The ingester has been found in the pool, or it has not.
    pub open spec fn after_look_up(self, available: bool) -> (
        FaultTolerantFetchStreamView,
        FetchStreamActionView,
    ) {
        if available {
            (self, FetchStreamActionView::OpenFetchStream(self.request()))
        } else {
            self.after_ingester(
                Some(
                    IngestV2ErrorView::IngesterUnavailable {
                        ingester_id: self.ingester_ids[self.ingester_idx as int],
                    },
                ),
            )
        }
    }

    /// The ingester has opened a stream, or it has refused to.
    pub open spec fn after_opening(self, error_opt: Option<IngestV2ErrorView>) -> (
        FaultTolerantFetchStreamView,
        FetchStreamActionView,
    ) {
        match error_opt {
            None => (self, FetchStreamActionView::AwaitResponse),
            Some(ingest_error) => self.after_ingester(Some(ingest_error)),
        }
    }

    /// The stream has given a response or an error, or it has ended.
    pub open spec fn after_response(
        self,
        response_opt: Option<Result<FetchResponseV2View, IngestV2ErrorView>>,
    ) -> (FaultTolerantFetchStreamView, FetchStreamActionView) {
        match response_opt {
            Some(Ok(response)) => (
                FaultTolerantFetchStreamView {
                    to_position_inclusive: response.to_position_inclusive(),
                    ..self
                },
                FetchStreamActionView::SendResponse(response),
            ),
            Some(Err(ingest_error)) => self.after_ingester(Some(ingest_error)),
            None => self.after_ingester(None),
        }
    }

    /// The response that was handed out has been delivered, and has brought the consumer to its
    /// position, or it has not been delivered because the consumer is gone.
    pub open spec fn after_sending(self, delivered: bool) -> (
        FaultTolerantFetchStreamView,
        FetchStreamActionView,
    ) {
        if !delivered {
            (self, FetchStreamActionView::Close(None))
        } else {
            (
                FaultTolerantFetchStreamView {
                    from_position_exclusive: self.to_position_inclusive,
                    ..self
                },
                if self.to_position_inclusive == Position::Eof {
                    FetchStreamActionView::Close(None)
                } else {
                    FetchStreamActionView::AwaitResponse
                },
            )
        }
    }
}

/// What a stream gave, in terms of views.
pub open spec fn response_opt_view(
    response_opt: Option<IngestV2Result<FetchResponseV2>>,
) -> Option<Result<FetchResponseV2View, IngestV2ErrorView>> {
    match response_opt {
        Some(Ok(response)) => Some(Ok(response@)),
        Some(Err(ingest_error)) => Some(Err(ingest_error@)),
        None => None,
    }
}

/// The error of a result, in terms of views.
pub open spec fn error_opt_view(result: IngestV2Result<()>) -> Option<IngestV2ErrorView> {
    match result {
        Ok(_) => None,
        Err(ingest_error) => Some(ingest_error@),
    }
}

impl FaultTolerantFetchStream {
    /// Creates an attempt to stream the records of a shard that follow a position, from the given
    /// ingesters, which are tried in this order.
    pub fn new(
        client_id: ClientId,
        index_uid: IndexUid,
        source_id: SourceId,
        shard_id: ShardId,
        from_position_exclusive: Position,
        ingester_ids: Vec<NodeId>,
    ) -> (stream: FaultTolerantFetchStream)
        ensures
            stream@ == (FaultTolerantFetchStreamView {
                client_id: client_id@,
                index_uid: index_uid@,
                source_id: source_id@,
                shard_id,
                from_position_exclusive,
                to_position_inclusive: from_position_exclusive,
                ingester_ids: node_id_views(ingester_ids@),
                ingester_idx: 0,
            }),
    {
        FaultTolerantFetchStream {
            client_id,
            index_uid,
            source_id,
            shard_id,
            from_position_exclusive,
            to_position_inclusive: from_position_exclusive,
            ingester_ids,
            ingester_idx: 0,
        }
    }

    /// Returns the position that the consumer has been brought to.
    pub fn from_position_exclusive(&self) -> (position: Position)
        ensures
            position == self@.from_position_exclusive,
    {
        self.from_position_exclusive
    }

    /// Returns whether there is an ingester that is being tried.
    pub fn has_ingester(&self) -> (has_ingester: bool)
        ensures
            has_ingester == self@.has_ingester(),
    {
        self.ingester_idx < self.ingester_ids.len()
    }

    /// Returns what the stream has to have done first.
    pub fn start(&self) -> (action: FetchStreamAction)
        ensures
            action@ == self@.start(),
    {
        if self.has_ingester() {
            self.try_ingester()
        } else {
            FetchStreamAction::Close(None)
        }
    }

    fn try_ingester(&self) -> (action: FetchStreamAction)
        requires
            self@.has_ingester(),
        ensures
            action@ == self@.try_ingester(),
    {
        FetchStreamAction::LookUpIngester {
            ingester_id: self.ingester_ids[self.ingester_idx].clone(),
        }
    }

    /// The current ingester has no more to give.
    fn after_ingester(&mut self, ingest_error_opt: Option<IngestV2Error>) -> (action:
        FetchStreamAction)
        requires
            old(self)@.has_ingester(),
        ensures
            (final(self)@, action@) == old(self)@.after_ingester(
                match ingest_error_opt {
                    Some(ingest_error) => Some(ingest_error@),
                    None => None,
                },
            ),
    {
        assert(self.ingester_idx < self.ingester_ids.len());
        if self.ingester_idx + 1 < self.ingester_ids.len() {
            self.ingester_idx = self.ingester_idx + 1;
            return self.try_ingester();
        }
        match ingest_error_opt {
            Some(ingest_error) => FetchStreamAction::Close(
                Some(
                    FetchStreamError {
                        index_uid: self.index_uid.clone(),
                        source_id: self.source_id.clone(),
                        shard_id: self.shard_id,
                        ingest_error,
                    },
                ),
            ),
            None => FetchStreamAction::Close(None),
        }
    }

    /// The ingester has been found in the pool, or it has not.
    pub fn on_ingester_looked_up(&mut self, available: bool) -> (action: FetchStreamAction)
        requires
            old(self)@.has_ingester(),
        ensures
            (final(self)@, action@) == old(self)@.after_look_up(available),
    {
        if !available {
            let ingester_id = self.ingester_ids[self.ingester_idx].clone();
            return self.after_ingester(Some(IngestV2Error::IngesterUnavailable { ingester_id }));
        }
        FetchStreamAction::OpenFetchStream(
            OpenFetchStreamRequest {
                client_id: self.client_id.clone(),
                index_uid: self.index_uid.clone(),
                source_id: self.source_id.clone(),
                shard_id: self.shard_id,
                from_position_exclusive: Some(self.from_position_exclusive),
            },
        )
    }

    /// The ingester has opened a stream, or it has refused to.
    pub fn on_stream_opened(&mut self, result: IngestV2Result<()>) -> (action: FetchStreamAction)
        requires
            old(self)@.has_ingester(),
        ensures
            (final(self)@, action@) == old(self)@.after_opening(error_opt_view(result)),
    {
        match result {
            Ok(_) => FetchStreamAction::AwaitResponse,
            Err(ingest_error) => self.after_ingester(Some(ingest_error)),
        }
    }

    /// The stream has given a response or an error, or it has ended.
    pub fn on_response(&mut self, response_opt: Option<IngestV2Result<FetchResponseV2>>) -> (action:
        FetchStreamAction)
        requires
            old(self)@.has_ingester(),
        ensures
            (final(self)@, action@) == old(self)@.after_response(response_opt_view(response_opt)),
    {
        match response_opt {
            Some(Ok(response)) => {
                self.to_position_inclusive = response.to_position_inclusive();
                FetchStreamAction::SendResponse(response)
            },
            Some(Err(ingest_error)) => self.after_ingester(Some(ingest_error)),
            None => self.after_ingester(None),
        }
    }

    /// The response that was handed out has been delivered, or it has not because the consumer is
    /// gone.
    pub fn on_response_sent(&mut self, delivered: bool) -> (action: FetchStreamAction)
        ensures
            (final(self)@, action@) == old(self)@.after_sending(delivered),
    {
        if !delivered {
            return FetchStreamAction::Close(None);
        }
        self.from_position_exclusive = self.to_position_inclusive;

        if self.from_position_exclusive == Position::Eof {
            // The stream has reached the end of the shard.
            FetchStreamAction::Close(None)
        } else {
            FetchStreamAction::AwaitResponse
        }
    }
}

} // verus!

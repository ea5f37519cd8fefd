//! What each operation of a fault-tolerant and of a retrying fetch stream does, in terms of what
//! goes into it and what comes out.
use vstd::prelude::*;

use crate::fault_tolerant::{
    FaultTolerantFetchStream, FaultTolerantFetchStreamView, FetchStreamAction,
    FetchStreamActionView,
};
use crate::fault_tolerant_run::{
    delivered, is_run, law_resumes_behind_last_delivery, reached_position, run, FetchStreamEvent,
};
use crate::message::{FetchResponseV2, IngestV2ErrorView, IngestV2Result};
use crate::position::Position;
use crate::queue_id::{ClientId, IndexUid, NodeId, ShardId, SourceId};
use crate::retrying::{
    RetryAction, RetryActionView, RetryParams, RetryingFetchStream, RetryingFetchStreamView,
};
use crate::retrying_run::RetryEvent;

verus! {

/// An attempt that is created has everything that it was created with: the client, the shard, the
/// position, and all the ingesters in their order. The first of them is tried first.
pub proof fn law_new_attempt_has_what_it_was_given(
    client_id: ClientId,
    index_uid: IndexUid,
    source_id: SourceId,
    shard_id: ShardId,
    from_position_exclusive: Position,
    ingester_ids: Vec<NodeId>,
    stream: FaultTolerantFetchStream,
)
    requires
        call_ensures(
            FaultTolerantFetchStream::new,
            (client_id, index_uid, source_id, shard_id, from_position_exclusive, ingester_ids),
            stream,
        ),
    ensures
        stream@.client_id == client_id@,
        stream@.index_uid == index_uid@,
        stream@.source_id == source_id@,
        stream@.shard_id == shard_id,
        stream@.from_position_exclusive == from_position_exclusive,
        stream@.to_position_inclusive == from_position_exclusive,
        stream@.ingester_ids.len() == ingester_ids@.len(),
        forall|i: int|
            0 <= i < ingester_ids@.len() ==> #[trigger] stream@.ingester_ids[i]
                == ingester_ids@[i]@,
        stream@.ingester_idx == 0,
{
}

/// An attempt says where it has brought the consumer, and whether an ingester is being tried.
pub proof fn law_attempt_says_where_it_is(
    stream: &FaultTolerantFetchStream,
    position: Position,
    has_ingester: bool,
)
    requires
        call_ensures(FaultTolerantFetchStream::from_position_exclusive, (stream,), position),
        call_ensures(FaultTolerantFetchStream::has_ingester, (stream,), has_ingester),
    ensures
        position == stream@.from_position_exclusive,
        has_ingester <==> stream@.ingester_idx < stream@.ingester_ids.len(),
{
}

/// The action looks this ingester up.
pub open spec fn looks_up(action: FetchStreamAction, ingester: Seq<char>) -> bool {
    action matches FetchStreamAction::LookUpIngester { ingester_id } && ingester_id@ == ingester
}

/// The action closes the stream without an error.
pub open spec fn closes_silently(action: FetchStreamAction) -> bool {
    action matches FetchStreamAction::Close(error_opt) && error_opt is None
}

/// The action closes the stream with this error, for the shard of the stream.
pub open spec fn closes_with(
    action: FetchStreamAction,
    stream: FaultTolerantFetchStreamView,
    ingest_error: IngestV2ErrorView,
) -> bool {
    &&& action matches FetchStreamAction::Close(Some(error))
    &&& error.index_uid@ == stream.index_uid
    &&& error.source_id@ == stream.source_id
    &&& error.shard_id == stream.shard_id
    &&& error.ingest_error@ == ingest_error
}

/// The two states are of streams for the same client and shard, from the same ingesters.
pub open spec fn stream_the_same(
    stream: FaultTolerantFetchStreamView,
    other: FaultTolerantFetchStreamView,
) -> bool {
    &&& stream.client_id == other.client_id
    &&& stream.index_uid == other.index_uid
    &&& stream.source_id == other.source_id
    &&& stream.shard_id == other.shard_id
    &&& stream.ingester_ids == other.ingester_ids
}

/// An attempt starts with the ingester that is to be tried, and has nothing to do without one.
pub proof fn law_attempt_starts_with_its_ingester(
    stream: &FaultTolerantFetchStream,
    action: FetchStreamAction,
)
    requires
        call_ensures(FaultTolerantFetchStream::start, (stream,), action),
    ensures
        stream@.ingester_idx < stream@.ingester_ids.len() ==> looks_up(
            action,
            stream@.ingester_ids[stream@.ingester_idx as int],
        ),
        stream@.ingester_idx >= stream@.ingester_ids.len() ==> closes_silently(action),
{
}

/// An ingester that is available is asked for the shard of the stream, for its client, from the
/// position on that the consumer has been brought to. Asking changes nothing.
pub proof fn law_available_ingester_is_asked(
    stream: &mut FaultTolerantFetchStream,
    action: FetchStreamAction,
)
    requires
        call_ensures(FaultTolerantFetchStream::on_ingester_looked_up, (stream, true), action),
        old(stream)@.ingester_idx < old(stream)@.ingester_ids.len(),
    ensures
        action matches FetchStreamAction::OpenFetchStream(request) && {
            &&& request.client_id@ == old(stream)@.client_id
            &&& request.index_uid@ == old(stream)@.index_uid
            &&& request.source_id@ == old(stream)@.source_id
            &&& request.shard_id == old(stream)@.shard_id
            &&& request.from_position_exclusive == Some(old(stream)@.from_position_exclusive)
        },
        stream_the_same(final(stream)@, old(stream)@),
        final(stream)@.from_position_exclusive == old(stream)@.from_position_exclusive,
        final(stream)@.to_position_inclusive == old(stream)@.to_position_inclusive,
        final(stream)@.ingester_idx == old(stream)@.ingester_idx,
{
}

/// The stream goes from one state to the next because of an ingester that gives no more: where
/// there is a next ingester, it is looked up; else the stream closes, with the error where there is
/// one. The consumer stays where it is.
pub open spec fn fails_over(
    before: FaultTolerantFetchStreamView,
    after: FaultTolerantFetchStreamView,
    action: FetchStreamAction,
    ingest_error_opt: Option<IngestV2ErrorView>,
) -> bool {
    &&& stream_the_same(after, before)
    &&& after.from_position_exclusive == before.from_position_exclusive
    &&& after.to_position_inclusive == before.to_position_inclusive
    &&& if before.ingester_idx + 1 < before.ingester_ids.len() {
        &&& after.ingester_idx == before.ingester_idx + 1
        &&& looks_up(action, before.ingester_ids[before.ingester_idx as int + 1])
    } else {
        &&& after.ingester_idx == before.ingester_idx
        &&& ingest_error_opt is None ==> closes_silently(action)
        &&& ingest_error_opt is Some ==> closes_with(action, before, ingest_error_opt->0)
    }
}

/// An ingester that is not available is failed over from. The error names it.
pub proof fn law_unavailable_ingester_is_failed_over_from(
    stream: &mut FaultTolerantFetchStream,
    action: FetchStreamAction,
)
    requires
        call_ensures(FaultTolerantFetchStream::on_ingester_looked_up, (stream, false), action),
        old(stream)@.ingester_idx < old(stream)@.ingester_ids.len(),
    ensures
        fails_over(
            old(stream)@,
            final(stream)@,
            action,
            Some(
                IngestV2ErrorView::IngesterUnavailable {
                    ingester_id: old(stream)@.ingester_ids[old(stream)@.ingester_idx as int],
                },
            ),
        ),
{
}

/// A stream that has been opened is waited for. An ingester that refuses to open one is failed over
/// from, because of its error.
pub proof fn law_opened_stream_is_waited_for(
    stream: &mut FaultTolerantFetchStream,
    result: IngestV2Result<()>,
    action: FetchStreamAction,
)
    requires
        call_ensures(FaultTolerantFetchStream::on_stream_opened, (stream, result), action),
        old(stream)@.ingester_idx < old(stream)@.ingester_ids.len(),
    ensures
        result is Ok ==> {
            &&& action is AwaitResponse
            &&& stream_the_same(final(stream)@, old(stream)@)
            &&& final(stream)@.from_position_exclusive == old(stream)@.from_position_exclusive
            &&& final(stream)@.to_position_inclusive == old(stream)@.to_position_inclusive
            &&& final(stream)@.ingester_idx == old(stream)@.ingester_idx
        },
        result matches Err(ingest_error) ==> fails_over(
            old(stream)@,
            final(stream)@,
            action,
            Some(ingest_error@),
        ),
{
}

/// A response is handed on as it is. A stream that breaks off is failed over from, because of its
/// error where it gave one. None of this moves the consumer.
pub proof fn law_response_is_handed_on(
    stream: &mut FaultTolerantFetchStream,
    response_opt: Option<IngestV2Result<FetchResponseV2>>,
    action: FetchStreamAction,
)
    requires
        call_ensures(FaultTolerantFetchStream::on_response, (stream, response_opt), action),
        old(stream)@.ingester_idx < old(stream)@.ingester_ids.len(),
    ensures
        match response_opt {
            Some(Ok(response)) => {
                &&& action matches FetchStreamAction::SendResponse(sent)
                &&& sent@ == response@
                &&& stream_the_same(final(stream)@, old(stream)@)
                &&& final(stream)@.from_position_exclusive == old(stream)@.from_position_exclusive
                &&& final(stream)@.ingester_idx == old(stream)@.ingester_idx
            },
            Some(Err(ingest_error)) => fails_over(
                old(stream)@,
                final(stream)@,
                action,
                Some(ingest_error@),
            ),
            None => fails_over(old(stream)@, final(stream)@, action, None),
        },
{
}

/// A response that is delivered brings the consumer to the position that the response reaches to.
/// Where that is the end of the shard, the stream closes; else it waits for the next response. A
/// response that is not delivered moves nothing, and the stream closes.
pub proof fn law_delivery_moves_the_consumer(
    stream: &mut FaultTolerantFetchStream,
    response: FetchResponseV2,
    action: FetchStreamAction,
    sent_stream: &mut FaultTolerantFetchStream,
    is_delivered: bool,
    next_action: FetchStreamAction,
)
    requires
        call_ensures(FaultTolerantFetchStream::on_response, (stream, Some(Ok(response))), action),
        old(stream)@.ingester_idx < old(stream)@.ingester_ids.len(),
        final(stream)@ == old(sent_stream)@,
        call_ensures(
            FaultTolerantFetchStream::on_response_sent,
            (sent_stream, is_delivered),
            next_action,
        ),
    ensures
        stream_the_same(final(sent_stream)@, old(stream)@),
        final(sent_stream)@.ingester_idx == old(stream)@.ingester_idx,
        is_delivered ==> {
            let reached = match response.to_position_inclusive {
                Some(position) => position,
                None => Position::Beginning,
            };
            &&& final(sent_stream)@.from_position_exclusive == reached
            &&& reached == Position::Eof ==> closes_silently(next_action)
            &&& reached != Position::Eof ==> next_action is AwaitResponse
        },
        !is_delivered ==> {
            &&& final(sent_stream)@.from_position_exclusive == old(stream)@.from_position_exclusive
            &&& closes_silently(next_action)
        },
{
}

/// Every request that a run makes, whichever ingester it goes to, is for the client, the index, the
/// source and the shard of the stream, from the position on that the consumer has been brought to.
pub proof fn law_requests_are_for_the_stream(
    stream: FaultTolerantFetchStreamView,
    events: Seq<FetchStreamEvent>,
)
    requires
        is_run(stream, events),
        stream.ingester_idx == 0,
    ensures
        run(stream, events).1 matches FetchStreamActionView::OpenFetchStream(request) ==> {
            &&& request.client_id == stream.client_id
            &&& request.index_uid == stream.index_uid
            &&& request.source_id == stream.source_id
            &&& request.shard_id == stream.shard_id
            &&& request.from_position_exclusive == Some(
                reached_position(stream.from_position_exclusive, delivered(stream, events)),
            )
        },
{
    law_resumes_behind_last_delivery(stream, events);
}

/// A run streams for the same client and shard, from the same ingesters, in every one of its
/// states.
pub proof fn law_run_streams_the_same(
    stream: FaultTolerantFetchStreamView,
    events: Seq<FetchStreamEvent>,
)
    requires
        is_run(stream, events),
    ensures
        stream_the_same(run(stream, events).0, stream),
    decreases events.len(),
{
    if events.len() > 0 {
        law_run_streams_the_same(stream, events.drop_last());
    }
}

/// Every error that the consumer is told of is for the index, the source and the shard of the
/// stream.
pub proof fn law_errors_are_for_the_stream(
    stream: FaultTolerantFetchStreamView,
    events: Seq<FetchStreamEvent>,
)
    requires
        is_run(stream, events),
    ensures
        run(stream, events).1 matches FetchStreamActionView::Close(Some(error)) ==> {
            &&& error.index_uid == stream.index_uid
            &&& error.source_id == stream.source_id
            &&& error.shard_id == stream.shard_id
        },
{
    if events.len() > 0 {
        law_run_streams_the_same(stream, events.drop_last());
    }
}

/// A run sends exactly the responses that it is given, as they are.
pub proof fn law_run_hands_responses_on(
    stream: FaultTolerantFetchStreamView,
    events: Seq<FetchStreamEvent>,
)
    requires
        is_run(stream, events),
        events.len() > 0,
    ensures
        match events.last() {
            FetchStreamEvent::Response { response_opt: Some(Ok(response)) } => run(stream, events).1
                == FetchStreamActionView::SendResponse(response),
            _ => run(stream, events).1 !is SendResponse,
        },
{
}

/// A retrying stream that is created has everything that it was created with, and no attempt
/// behind it.
pub proof fn law_new_stream_has_what_it_was_given(
    client_id: ClientId,
    index_uid: IndexUid,
    source_id: SourceId,
    shard_id: ShardId,
    from_position_exclusive: Position,
    ingester_ids: Vec<NodeId>,
    retry_params: RetryParams,
    stream: RetryingFetchStream,
)
    requires
        call_ensures(
            RetryingFetchStream::new,
            (
                client_id,
                index_uid,
                source_id,
                shard_id,
                from_position_exclusive,
                ingester_ids,
                retry_params,
            ),
            stream,
        ),
    ensures
        stream@.client_id == client_id@,
        stream@.index_uid == index_uid@,
        stream@.source_id == source_id@,
        stream@.shard_id == shard_id,
        stream@.from_position_exclusive == from_position_exclusive,
        stream@.ingester_ids.len() == ingester_ids@.len(),
        forall|i: int|
            0 <= i < ingester_ids@.len() ==> #[trigger] stream@.ingester_ids[i]
                == ingester_ids@[i]@,
        stream@.max_attempts == retry_params.max_attempts,
        stream@.num_attempts == 0,
{
}

/// The two states are of streams for the same client and shard, from the same ingesters, with the
/// same number of attempts.
pub open spec fn retry_the_same(
    stream: RetryingFetchStreamView,
    other: RetryingFetchStreamView,
) -> bool {
    &&& stream.client_id == other.client_id
    &&& stream.index_uid == other.index_uid
    &&& stream.source_id == other.source_id
    &&& stream.shard_id == other.shard_id
    &&& stream.ingester_ids == other.ingester_ids
    &&& stream.max_attempts == other.max_attempts
}

/// The attempt is for the client and the shard of the stream, over all of its ingesters in their
/// order, none of which has been tried yet, from a position on.
pub open spec fn is_attempt_from(
    attempt: FaultTolerantFetchStreamView,
    stream: RetryingFetchStreamView,
    position: Position,
) -> bool {
    &&& attempt.client_id == stream.client_id
    &&& attempt.index_uid == stream.index_uid
    &&& attempt.source_id == stream.source_id
    &&& attempt.shard_id == stream.shard_id
    &&& attempt.ingester_ids == stream.ingester_ids
    &&& attempt.ingester_idx == 0
    &&& attempt.from_position_exclusive == position
    &&& attempt.to_position_inclusive == position
}

/// As long as attempts are left, the next one is over all the ingesters, from the position on that
/// the consumer has been brought to, and it counts. Where none is left, nothing is left to do.
pub proof fn law_next_attempt_is_over_all_ingesters(
    stream: &mut RetryingFetchStream,
    action: RetryAction,
)
    requires
        call_ensures(RetryingFetchStream::next_attempt, (stream,), action),
    ensures
        retry_the_same(final(stream)@, old(stream)@),
        final(stream)@.from_position_exclusive == old(stream)@.from_position_exclusive,
        old(stream)@.num_attempts < old(stream)@.max_attempts ==> {
            &&& action matches RetryAction::Attempt(attempt)
            &&& is_attempt_from(attempt@, old(stream)@, old(stream)@.from_position_exclusive)
            &&& final(stream)@.num_attempts == old(stream)@.num_attempts + 1
        },
        old(stream)@.num_attempts >= old(stream)@.max_attempts ==> {
            &&& action is Finish
            &&& final(stream)@.num_attempts == old(stream)@.num_attempts
        },
{
}

/// An attempt leaves the consumer where it has brought it. At the end of the shard nothing is left
/// to do; anywhere else a delay is due, by the number of attempts so far.
pub proof fn law_finished_attempt_moves_the_stream(
    stream: &mut RetryingFetchStream,
    attempt: FaultTolerantFetchStream,
    action: RetryAction,
)
    requires
        call_ensures(RetryingFetchStream::on_attempt_finished, (stream, attempt), action),
    ensures
        retry_the_same(final(stream)@, old(stream)@),
        final(stream)@.num_attempts == old(stream)@.num_attempts,
        final(stream)@.from_position_exclusive == attempt@.from_position_exclusive,
        attempt@.from_position_exclusive == Position::Eof ==> action is Finish,
        attempt@.from_position_exclusive != Position::Eof ==> {
            &&& action matches RetryAction::Sleep { num_attempts }
            &&& num_attempts == old(stream)@.num_attempts
        },
{
}

/// Every attempt that a run hands out is for the client and the shard of the stream, over exactly
/// the ingesters that the stream was created with, all of them and in their order, from the
/// position on that the consumer has been brought to by the attempts before it.
pub proof fn law_attempts_are_over_all_ingesters(
    stream: RetryingFetchStreamView,
    events: Seq<RetryEvent>,
)
    requires
        crate::retrying_run::is_run(stream, events),
        stream.num_attempts == 0,
    ensures
        retry_the_same(crate::retrying_run::run(stream, events).0, stream),
        crate::retrying_run::run(stream, events).1 matches RetryActionView::Attempt(attempt)
            ==> is_attempt_from(
            attempt,
            stream,
            reached_position(
                stream.from_position_exclusive,
                crate::retrying_run::delivered(stream, events),
            ),
        ),
    decreases events.len(),
{
    if crate::retrying_run::run(stream, events).1 is Attempt {
        crate::retrying_run::law_attempt_resumes_behind_last_delivery(stream, events);
    }
    if events.len() > 0 {
        law_attempts_are_over_all_ingesters(stream, events.drop_last());
    }
}

/// The number of attempts that a run has handed out.
pub open spec fn attempts_made(stream: RetryingFetchStreamView, events: Seq<RetryEvent>) -> nat
    decreases events.len(),
{
    let before = if events.len() == 0 {
        0
    } else {
        attempts_made(stream, events.drop_last())
    };
    if crate::retrying_run::run(stream, events).1 is Attempt {
        before + 1
    } else {
        before
    }
}

/// Attempts are made until the end of the shard is reached, as many as the retry parameters allow
/// and no more: where a delay is over, the next attempt follows if and only if one is left.
pub proof fn law_every_attempt_allowed_is_made(
    stream: RetryingFetchStreamView,
    events: Seq<RetryEvent>,
)
    requires
        crate::retrying_run::is_run(stream, events),
        stream.num_attempts == 0,
    ensures
        attempts_made(stream, events) <= stream.max_attempts,
        crate::retrying_run::run(stream, events).0.num_attempts == attempts_made(stream, events),
        events.len() == 0 ==> (crate::retrying_run::run(stream, events).1 is Attempt
            <==> stream.max_attempts > 0),
        events.len() > 0 && events.last() is DelayElapsed ==> (crate::retrying_run::run(
            stream,
            events,
        ).1 is Attempt <==> attempts_made(stream, events.drop_last()) < stream.max_attempts),
        crate::retrying_run::run(stream, events).1 matches RetryActionView::Sleep { num_attempts }
            ==> num_attempts == attempts_made(stream, events),
    decreases events.len(),
{
    if events.len() > 0 {
        law_every_attempt_allowed_is_made(stream, events.drop_last());
        law_attempts_are_over_all_ingesters(stream, events.drop_last());
    }
}

} // verus!

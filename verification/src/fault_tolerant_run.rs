//! Runs of a fault-tolerant fetch stream, from its start on, and what holds of all of them.
use vstd::prelude::*;

use crate::fault_tolerant::{FaultTolerantFetchStreamView, FetchStreamActionView};
use crate::message::{FetchResponseV2View, IngestV2ErrorView};
use crate::position::Position;

verus! {

/// What a fault-tolerant fetch stream is told: what became of the action that it asked for.
pub enum FetchStreamEvent {
    IngesterLookedUp { available: bool },
    StreamOpened { error_opt: Option<IngestV2ErrorView> },
    Response { response_opt: Option<Result<FetchResponseV2View, IngestV2ErrorView>> },
    ResponseSent { delivered: bool },
}

/// The event tells what became of the action.
pub open spec fn answers(event: FetchStreamEvent, action: FetchStreamActionView) -> bool {
    match action {
        FetchStreamActionView::LookUpIngester { .. } => event is IngesterLookedUp,
        FetchStreamActionView::OpenFetchStream(_) => event is StreamOpened,
        FetchStreamActionView::AwaitResponse => event is Response,
        FetchStreamActionView::SendResponse(_) => event is ResponseSent,
        FetchStreamActionView::Close(_) => false,
    }
}

/// The state after an event, and the action that follows.
pub open spec fn step(stream: FaultTolerantFetchStreamView, event: FetchStreamEvent) -> (
    FaultTolerantFetchStreamView,
    FetchStreamActionView,
) {
    match event {
        FetchStreamEvent::IngesterLookedUp { available } => stream.after_look_up(available),
        FetchStreamEvent::StreamOpened { error_opt } => stream.after_opening(error_opt),
        FetchStreamEvent::Response { response_opt } => stream.after_response(response_opt),
        FetchStreamEvent::ResponseSent { delivered } => stream.after_sending(delivered),
    }
}

/// The state after a sequence of events, and the action that follows.
pub open spec fn run(stream: FaultTolerantFetchStreamView, events: Seq<FetchStreamEvent>) -> (
    FaultTolerantFetchStreamView,
    FetchStreamActionView,
)
    decreases events.len(),
{
    if events.len() == 0 {
        (stream, stream.start())
    } else {
        step(run(stream, events.drop_last()).0, events.last())
    }
}

/// The events can follow one another: each answers the action before it.
pub open spec fn is_run(
    stream: FaultTolerantFetchStreamView,
    events: Seq<FetchStreamEvent>,
) -> bool
    decreases events.len(),
{
    events.len() > 0 ==> {
        &&& is_run(stream, events.drop_last())
        &&& answers(events.last(), run(stream, events.drop_last()).1)
    }
}

/// The ingesters that a run has tried, in order.
pub open spec fn tried_ingesters(
    stream: FaultTolerantFetchStreamView,
    events: Seq<FetchStreamEvent>,
) -> Seq<Seq<char>>
    decreases events.len(),
{
    let before = if events.len() == 0 {
        Seq::empty()
    } else {
        tried_ingesters(stream, events.drop_last())
    };
    match run(stream, events).1 {
        FetchStreamActionView::LookUpIngester { ingester_id } => before.push(ingester_id),
        _ => before,
    }
}

/// The responses that have reached the consumer, in order.
pub open spec fn delivered(
    stream: FaultTolerantFetchStreamView,
    events: Seq<FetchStreamEvent>,
) -> Seq<FetchResponseV2View>
    decreases events.len(),
{
    if events.len() == 0 {
        Seq::empty()
    } else {
        let before = delivered(stream, events.drop_last());
        let pending = run(stream, events.drop_last()).1;
        if events.last() == (FetchStreamEvent::ResponseSent { delivered: true }) {
            before.push(pending->SendResponse_0)
        } else {
            before
        }
    }
}

/// The position up to which the stream that was opened last has been served.
pub open spec fn served_position(
    stream: FaultTolerantFetchStreamView,
    events: Seq<FetchStreamEvent>,
) -> Position
    decreases events.len(),
{
    if events.len() == 0 {
        stream.from_position_exclusive
    } else {
        match events.last() {
            FetchStreamEvent::StreamOpened { error_opt: None } => run(
                stream,
                events.drop_last(),
            ).1->OpenFetchStream_0.from_position_exclusive(),
            FetchStreamEvent::Response {
                response_opt: Some(Ok(response)),
            } => response.to_position_inclusive(),
            _ => served_position(stream, events.drop_last()),
        }
    }
}

/// Every ingester serves what it has been asked for: the first response of a stream follows the
/// position of the request, and each of the others follows the response before it.
pub open spec fn is_served_in_sequence(
    stream: FaultTolerantFetchStreamView,
    events: Seq<FetchStreamEvent>,
) -> bool
    decreases events.len(),
{
    events.len() > 0 ==> {
        &&& is_served_in_sequence(stream, events.drop_last())
        &&& events.last() matches FetchStreamEvent::Response { response_opt: Some(Ok(response)) }
            ==> response.from_position_exclusive() == served_position(stream, events.drop_last())
    }
}

/// The position that a consumer has been brought to.
pub open spec fn reached_position(
    from_position_exclusive: Position,
    responses: Seq<FetchResponseV2View>,
) -> Position {
    if responses.len() == 0 {
        from_position_exclusive
    } else {
        responses.last().to_position_inclusive()
    }
}

/// Each response follows the one before it, and the first one follows the given position.
pub open spec fn are_contiguous(
    from_position_exclusive: Position,
    responses: Seq<FetchResponseV2View>,
) -> bool {
    forall|i: int|
        0 <= i < responses.len() ==> #[trigger] responses[i].from_position_exclusive()
            == reached_position(from_position_exclusive, responses.take(i))
}

/// What is wrong with an ingester, as far as an event tells.
pub open spec fn failure(
    stream: FaultTolerantFetchStreamView,
    event: FetchStreamEvent,
) -> Option<IngestV2ErrorView> {
    match event {
        FetchStreamEvent::IngesterLookedUp { available: false } => Some(
            IngestV2ErrorView::IngesterUnavailable {
                ingester_id: stream.ingester_ids[stream.ingester_idx as int],
            },
        ),
        FetchStreamEvent::StreamOpened { error_opt } => error_opt,
        FetchStreamEvent::Response { response_opt: Some(Err(ingest_error)) } => Some(ingest_error),
        _ => None,
    }
}

/// What holds of every state of a run.
spec fn invariant_of_runs(
    stream: FaultTolerantFetchStreamView,
    events: Seq<FetchStreamEvent>,
) -> bool {
    let (end, action) = run(stream, events);
    let received = delivered(stream, events);
    let tried = tried_ingesters(stream, events);
    &&& end == (FaultTolerantFetchStreamView {
        from_position_exclusive: end.from_position_exclusive,
        to_position_inclusive: end.to_position_inclusive,
        ingester_idx: end.ingester_idx,
        ..stream
    })
    &&& end.from_position_exclusive == reached_position(stream.from_position_exclusive, received)
    &&& action matches FetchStreamActionView::OpenFetchStream(request) ==> request == end.request()
    &&& action matches FetchStreamActionView::SendResponse(response)
        ==> end.to_position_inclusive == response.to_position_inclusive()
    &&& action !is Close ==> end.has_ingester()
    &&& stream.has_ingester() ==> end.has_ingester() && tried =~= stream.ingester_ids.take(
        end.ingester_idx as int + 1,
    )
    &&& !stream.has_ingester() ==> events.len() == 0
    &&& action is Close || forall|i: int|
        0 <= i < received.len() ==> (#[trigger] received[i]).to_position_inclusive()
            != Position::Eof
    &&& forall|i: int|
        0 <= i < received.len() - 1 ==> (#[trigger] received[i]).to_position_inclusive()
            != Position::Eof
    &&& received.len() > 0 && received.last().to_position_inclusive() == Position::Eof ==> action
        == FetchStreamActionView::Close(None)
}

proof fn lemma_runs_keep_invariant(
    stream: FaultTolerantFetchStreamView,
    events: Seq<FetchStreamEvent>,
)
    requires
        is_run(stream, events),
        stream.ingester_idx == 0,
    ensures
        invariant_of_runs(stream, events),
    decreases events.len(),
{
    if events.len() > 0 {
        lemma_runs_keep_invariant(stream, events.drop_last());
        let (before, pending) = run(stream, events.drop_last());
        assert(before.has_ingester());
    }
}

/// Wherever a run stands, it has brought the consumer to the last position delivered to it, and
/// that is where it goes on: every ingester, be it the first one or one that the stream has failed
/// over to, is asked for the records behind that position.
pub proof fn law_resumes_behind_last_delivery(
    stream: FaultTolerantFetchStreamView,
    events: Seq<FetchStreamEvent>,
)
    requires
        is_run(stream, events),
        stream.ingester_idx == 0,
    ensures
        ({
            let (end, action) = run(stream, events);
            let reached = reached_position(
                stream.from_position_exclusive,
                delivered(stream, events),
            );
            &&& end.from_position_exclusive == reached
            &&& action matches FetchStreamActionView::OpenFetchStream(request)
                ==> request == (FaultTolerantFetchStreamView {
                from_position_exclusive: reached,
                ..stream
            }).request()
        }),
{
    lemma_runs_keep_invariant(stream, events);
}

/// The ingesters are tried in the order given, each of them once, and none is passed over.
pub proof fn law_ingesters_are_tried_in_order(
    stream: FaultTolerantFetchStreamView,
    events: Seq<FetchStreamEvent>,
)
    requires
        is_run(stream, events),
        stream.ingester_idx == 0,
    ensures
        tried_ingesters(stream, events).is_prefix_of(stream.ingester_ids),
        stream.ingester_ids.len() > 0 ==> tried_ingesters(stream, events).len() == run(
            stream,
            events,
        ).0.ingester_idx + 1,
{
    lemma_runs_keep_invariant(stream, events);
}

/// The consumer is told of an error only where every ingester has been tried, and it is told what
/// went wrong with the last of them.
pub proof fn law_error_is_the_last_ingesters(
    stream: FaultTolerantFetchStreamView,
    events: Seq<FetchStreamEvent>,
)
    requires
        is_run(stream, events),
        stream.ingester_idx == 0,
        run(stream, events).1 matches FetchStreamActionView::Close(Some(_)),
    ensures
        events.len() > 0,
        tried_ingesters(stream, events) == stream.ingester_ids,
        ({
            let before = run(stream, events.drop_last()).0;
            &&& failure(before, events.last()) is Some
            &&& run(stream, events).1 == FetchStreamActionView::Close(
                Some(stream.error(failure(before, events.last())->0)),
            )
        }),
{
    lemma_runs_keep_invariant(stream, events);
    lemma_runs_keep_invariant(stream, events.drop_last());
}

/// A failure that is not the last ingester's stays hidden from the consumer: the next ingester is
/// tried.
pub proof fn law_failure_leads_to_next_ingester(
    stream: FaultTolerantFetchStreamView,
    events: Seq<FetchStreamEvent>,
)
    requires
        is_run(stream, events),
        stream.ingester_idx == 0,
        events.len() > 0,
        failure(run(stream, events.drop_last()).0, events.last()) is Some,
        run(stream, events.drop_last()).0.ingester_idx + 1 < stream.ingester_ids.len(),
    ensures
        ({
            let failed_idx = run(stream, events.drop_last()).0.ingester_idx as int;
            run(stream, events).1 == (FetchStreamActionView::LookUpIngester {
                ingester_id: stream.ingester_ids[failed_idx + 1],
            })
        }),
{
    lemma_runs_keep_invariant(stream, events.drop_last());
}

/// Once the consumer has been brought to the end of the shard, the stream is closed, and nothing
/// has followed.
pub proof fn law_nothing_follows_eof(
    stream: FaultTolerantFetchStreamView,
    events: Seq<FetchStreamEvent>,
    i: int,
)
    requires
        is_run(stream, events),
        stream.ingester_idx == 0,
        0 <= i < delivered(stream, events).len(),
        delivered(stream, events)[i].to_position_inclusive() == Position::Eof,
    ensures
        i == delivered(stream, events).len() - 1,
        run(stream, events).1 == FetchStreamActionView::Close(None),
{
    lemma_runs_keep_invariant(stream, events);
}

/// A stream that is closed without an error has brought the consumer to the end of the shard, or
/// has lost its consumer, or was ended by the last of its ingesters, or had none to start with.
pub proof fn law_silent_close_has_a_reason(
    stream: FaultTolerantFetchStreamView,
    events: Seq<FetchStreamEvent>,
)
    requires
        is_run(stream, events),
        stream.ingester_idx == 0,
        run(stream, events).1 == FetchStreamActionView::Close(None),
    ensures
        ({
            let received = delivered(stream, events);
            ||| received.len() > 0 && received.last().to_position_inclusive() == Position::Eof
            ||| events.len() > 0 && events.last() == (FetchStreamEvent::ResponseSent {
                delivered: false,
            })
            ||| events.len() > 0 && events.last() == (FetchStreamEvent::Response {
                response_opt: None,
            }) && tried_ingesters(stream, events) == stream.ingester_ids
            ||| stream.ingester_ids.len() == 0
        }),
{
    lemma_runs_keep_invariant(stream, events);
    if events.len() > 0 {
        lemma_runs_keep_invariant(stream, events.drop_last());
    }
}

/// Where responses link up and the next one follows them, all of them link up.
proof fn lemma_contiguous_push(
    from_position_exclusive: Position,
    responses: Seq<FetchResponseV2View>,
    response: FetchResponseV2View,
)
    requires
        are_contiguous(from_position_exclusive, responses),
        response.from_position_exclusive() == reached_position(from_position_exclusive, responses),
    ensures
        are_contiguous(from_position_exclusive, responses.push(response)),
{
    let pushed = responses.push(response);
    assert forall|i: int| 0 <= i < pushed.len() implies #[trigger] pushed[i]
        .from_position_exclusive() == reached_position(
        from_position_exclusive,
        pushed.take(i),
    ) by {
        assert(pushed.take(i) =~= responses.take(i));
        if i == responses.len() {
            assert(responses.take(i) =~= responses);
        } else {
            assert(pushed[i] == responses[i]);
        }
    }
}

/// Where each stream is served in sequence, so is the consumer, across all the ingesters that
/// fail: what is delivered starts at the position that was asked for, and has no gap and no
/// repetition where the stream fails over.
pub proof fn law_delivery_is_contiguous(
    stream: FaultTolerantFetchStreamView,
    events: Seq<FetchStreamEvent>,
)
    requires
        is_run(stream, events),
        is_served_in_sequence(stream, events),
        stream.ingester_idx == 0,
    ensures
        are_contiguous(stream.from_position_exclusive, delivered(stream, events)),
{
    lemma_delivery_follows_serving(stream, events);
}

/// What is delivered links up, and the stream that is open has been served up to what has been
/// delivered, or is about to be.
proof fn lemma_delivery_follows_serving(
    stream: FaultTolerantFetchStreamView,
    events: Seq<FetchStreamEvent>,
)
    requires
        is_run(stream, events),
        is_served_in_sequence(stream, events),
        stream.ingester_idx == 0,
    ensures
        are_contiguous(stream.from_position_exclusive, delivered(stream, events)),
        run(stream, events).1 is AwaitResponse ==> served_position(stream, events) == run(
            stream,
            events,
        ).0.from_position_exclusive,
        run(stream, events).1 matches FetchStreamActionView::SendResponse(response) ==> {
            &&& served_position(stream, events) == response.to_position_inclusive()
            &&& response.from_position_exclusive() == run(stream, events).0.from_position_exclusive
        },
    decreases events.len(),
{
    lemma_runs_keep_invariant(stream, events);
    if events.len() > 0 {
        lemma_runs_keep_invariant(stream, events.drop_last());
        lemma_delivery_follows_serving(stream, events.drop_last());
        let (before, pending) = run(stream, events.drop_last());
        if events.last() == (FetchStreamEvent::ResponseSent { delivered: true }) {
            lemma_contiguous_push(
                stream.from_position_exclusive,
                delivered(stream, events.drop_last()),
                pending->SendResponse_0,
            );
        }
    }
}

} // verus!

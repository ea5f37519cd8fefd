//! Fetch tasks on one side, a consumer on the other: together they bring the log of a shard over.
use vstd::prelude::*;

use crate::delivery::{
    is_reached_at, is_true_to, law_consumer_receives_the_log, law_responses_are_true_to_the_log,
};
use crate::fault_tolerant::{FaultTolerantFetchStreamView, FetchStreamActionView};
use crate::fault_tolerant_run::{
    delivered, is_run, is_served_in_sequence, law_nothing_follows_eof,
    law_resumes_behind_last_delivery, reached_position, run, served_position, FetchStreamEvent,
};
use crate::fetch_task::initial_task;
use crate::fetch_task_laws::law_responses_are_for_the_shard_of_the_request;
use crate::fetch_task_run::{
    carried_bytes, carried_lengths, law_first_response_follows_request,
    law_responses_are_contiguous, responses, stretch, FetchTaskEvent,
};
use crate::message::{FetchResponseV2View, OpenFetchStreamRequestView};
use crate::mrecord::stated_lengths;
use crate::position::{offset_after, Position};
use crate::retrying::RetryingFetchStreamView;
use crate::retrying_run::{all_served_in_sequence, law_only_last_delivery_is_eof, RetryEvent};
use crate::stream_laws::{law_attempts_are_over_all_ingesters, law_requests_are_for_the_stream};

verus! {

/// What the stream that was opened last has been asked for, if one has been opened.
pub open spec fn opened_request(
    stream: FaultTolerantFetchStreamView,
    events: Seq<FetchStreamEvent>,
) -> Option<OpenFetchStreamRequestView>
    decreases events.len(),
{
    if events.len() == 0 {
        None
    } else {
        match events.last() {
            FetchStreamEvent::StreamOpened { error_opt: None } => Some(
                run(stream, events.drop_last()).1->OpenFetchStream_0,
            ),
            _ => opened_request(stream, events.drop_last()),
        }
    }
}

/// The responses that the stream that was opened last has given, in order.
pub open spec fn opened_responses(
    stream: FaultTolerantFetchStreamView,
    events: Seq<FetchStreamEvent>,
) -> Seq<FetchResponseV2View>
    decreases events.len(),
{
    if events.len() == 0 {
        Seq::empty()
    } else {
        let before = opened_responses(stream, events.drop_last());
        match events.last() {
            FetchStreamEvent::StreamOpened { error_opt: None } => Seq::empty(),
            FetchStreamEvent::Response { response_opt: Some(Ok(response)) } => before.push(
                response,
            ),
            _ => before,
        }
    }
}

/// The responses are the first ones of a run of the fetch task that serves the request.
pub open spec fn are_first_of_run(
    received: Seq<FetchResponseV2View>,
    request: OpenFetchStreamRequestView,
    log: Seq<Seq<u8>>,
    batch_num_bytes: nat,
    task_events: Seq<FetchTaskEvent>,
) -> bool {
    let task = initial_task(request, batch_num_bytes);
    &&& crate::fetch_task_run::is_run(task, task_events, log)
    &&& received.is_prefix_of(responses(task, task_events))
}

/// The responses are the first ones of some fetch task that serves the request from the log.
pub open spec fn come_from_fetch_task(
    received: Seq<FetchResponseV2View>,
    request: OpenFetchStreamRequestView,
    log: Seq<Seq<u8>>,
) -> bool {
    exists|batch_num_bytes: nat, task_events: Seq<FetchTaskEvent>|
        are_first_of_run(received, request, log, batch_num_bytes, task_events)
}

/// Every stream that is opened is served by a fetch task on the log. It may break off after any of
/// its responses.
pub open spec fn is_served_by_fetch_tasks(
    stream: FaultTolerantFetchStreamView,
    events: Seq<FetchStreamEvent>,
    log: Seq<Seq<u8>>,
) -> bool
    decreases events.len(),
{
    events.len() > 0 ==> {
        &&& is_served_by_fetch_tasks(stream, events.drop_last(), log)
        &&& events.last() matches FetchStreamEvent::Response { response_opt: Some(Ok(_)) }
            ==> come_from_fetch_task(
            opened_responses(stream, events),
            opened_request(stream, events)->0,
            log,
        )
    }
}

/// In every attempt, every stream that is opened is served by a fetch task on the log.
pub open spec fn all_served_by_fetch_tasks(
    stream: RetryingFetchStreamView,
    events: Seq<RetryEvent>,
    log: Seq<Seq<u8>>,
) -> bool
    decreases events.len(),
{
    events.len() > 0 ==> {
        &&& all_served_by_fetch_tasks(stream, events.drop_last(), log)
        &&& events.last() matches RetryEvent::AttemptFinished { events: attempt_events }
            ==> is_served_by_fetch_tasks(
            crate::retrying_run::run(stream, events.drop_last()).1->Attempt_0,
            attempt_events,
            log,
        )
    }
}

/// The positions and the lengths of the log are in the range of the machine.
pub open spec fn is_log_in_range(log: Seq<Seq<u8>>) -> bool {
    &&& log.len() <= u64::MAX
    &&& forall|i: int| 0 <= i < log.len() ==> (#[trigger] log[i]).len() <= u32::MAX
}

/// A stream that has not been closed has not brought its consumer to the end of the shard.
proof fn lemma_open_stream_is_before_eof(
    stream: FaultTolerantFetchStreamView,
    events: Seq<FetchStreamEvent>,
)
    requires
        is_run(stream, events),
        stream.ingester_idx == 0,
        stream.from_position_exclusive != Position::Eof,
        run(stream, events).1 !is Close,
    ensures
        run(stream, events).0.from_position_exclusive != Position::Eof,
{
    let received = delivered(stream, events);
    law_resumes_behind_last_delivery(stream, events);
    if received.len() > 0 && received.last().to_position_inclusive() == Position::Eof {
        law_nothing_follows_eof(stream, events, received.len() - 1);
    }
}

/// A stream that is open has been asked for what is behind a position before the end of the shard,
/// and has been served up to where its responses reach.
proof fn lemma_open_stream_is_served(
    stream: FaultTolerantFetchStreamView,
    events: Seq<FetchStreamEvent>,
)
    requires
        is_run(stream, events),
        stream.ingester_idx == 0,
        stream.from_position_exclusive != Position::Eof,
    ensures
        run(stream, events).1 is AwaitResponse || run(stream, events).1 is SendResponse ==> {
            &&& opened_request(stream, events) is Some
            &&& opened_request(stream, events)->0.from_position_exclusive() != Position::Eof
            &&& served_position(stream, events) == reached_position(
                opened_request(stream, events)->0.from_position_exclusive(),
                opened_responses(stream, events),
            )
        },
        run(stream, events).1 matches FetchStreamActionView::SendResponse(response) ==> {
            &&& opened_responses(stream, events).len() > 0
            &&& opened_responses(stream, events).last() == response
            &&& events.len() > 0
            &&& events.last() == (FetchStreamEvent::Response { response_opt: Some(Ok(response)) })
        },
    decreases events.len(),
{
    if events.len() > 0 {
        let (before, pending) = run(stream, events.drop_last());
        lemma_open_stream_is_served(stream, events.drop_last());
        law_resumes_behind_last_delivery(stream, events.drop_last());
        if pending is OpenFetchStream {
            lemma_open_stream_is_before_eof(stream, events.drop_last());
        }
    }
}

/// What a fetch task sends follows the position of its request, links up, and is true to the log.
proof fn lemma_fetch_task_serves(
    received: Seq<FetchResponseV2View>,
    response: FetchResponseV2View,
    request: OpenFetchStreamRequestView,
    log: Seq<Seq<u8>>,
)
    requires
        is_log_in_range(log),
        request.from_position_exclusive() != Position::Eof,
        come_from_fetch_task(received.push(response), request, log),
    ensures
        response.from_position_exclusive() == reached_position(
            request.from_position_exclusive(),
            received,
        ),
        is_true_to(response, log),
{
    let (batch_num_bytes, task_events) = choose|
        batch_num_bytes: nat,
        task_events: Seq<FetchTaskEvent>,
    |
        are_first_of_run(received.push(response), request, log, batch_num_bytes, task_events);
    let task = initial_task(request, batch_num_bytes);
    let sent = responses(task, task_events);
    let place = received.len() as int;
    assert(received.push(response)[place] == sent[place]);
    law_responses_are_true_to_the_log(task, task_events, log, place);
    if place == 0 {
        law_first_response_follows_request(request, batch_num_bytes, task_events, log);
    } else {
        law_responses_are_contiguous(task, task_events, log);
        assert(received.push(response)[place - 1] == sent[place - 1]);
        assert(sent[place].from_position_exclusive() == sent[place - 1].to_position_inclusive());
    }
}

/// Fetch tasks serve a consumer well: where every stream that is opened is served by a fetch task
/// on the log, and breaks off wherever it may, each one serves in sequence what it has been asked
/// for, and what is delivered is true to the log.
pub proof fn law_fetch_tasks_serve_in_sequence(
    stream: FaultTolerantFetchStreamView,
    events: Seq<FetchStreamEvent>,
    log: Seq<Seq<u8>>,
)
    requires
        is_run(stream, events),
        stream.ingester_idx == 0,
        stream.from_position_exclusive != Position::Eof,
        is_log_in_range(log),
        is_served_by_fetch_tasks(stream, events, log),
    ensures
        is_served_in_sequence(stream, events),
        ({
            let received = delivered(stream, events);
            forall|i: int| 0 <= i < received.len() ==> is_true_to(#[trigger] received[i], log)
        }),
        run(stream, events).1 matches FetchStreamActionView::SendResponse(response) ==> is_true_to(
            response,
            log,
        ),
    decreases events.len(),
{
    if events.len() > 0 {
        law_fetch_tasks_serve_in_sequence(stream, events.drop_last(), log);
        lemma_open_stream_is_served(stream, events.drop_last());
        lemma_open_stream_is_served(stream, events);
        match events.last() {
            FetchStreamEvent::Response { response_opt: Some(Ok(response)) } => {
                lemma_fetch_task_serves(
                    opened_responses(stream, events.drop_last()),
                    response,
                    opened_request(stream, events.drop_last())->0,
                    log,
                );
            },
            _ => {},
        }
        let head = delivered(stream, events.drop_last());
        let received = delivered(stream, events);
        assert forall|i: int| 0 <= i < received.len() implies is_true_to(
            #[trigger] received[i],
            log,
        ) by {
            if i < head.len() {
                assert(received[i] == head[i]);
            }
        }
    }
}

/// Fetch tasks serve a consumer well over all of its attempts.
pub proof fn law_fetch_tasks_serve_all_attempts(
    stream: RetryingFetchStreamView,
    events: Seq<RetryEvent>,
    log: Seq<Seq<u8>>,
)
    requires
        crate::retrying_run::is_run(stream, events),
        stream.num_attempts == 0,
        stream.from_position_exclusive != Position::Eof,
        is_log_in_range(log),
        all_served_by_fetch_tasks(stream, events, log),
    ensures
        all_served_in_sequence(stream, events),
        ({
            let received = crate::retrying_run::delivered(stream, events);
            forall|i: int| 0 <= i < received.len() ==> is_true_to(#[trigger] received[i], log)
        }),
    decreases events.len(),
{
    if events.len() > 0 {
        law_fetch_tasks_serve_all_attempts(stream, events.drop_last(), log);
        match events.last() {
            RetryEvent::AttemptFinished { events: attempt_events } => {
                let attempt = crate::retrying_run::run(stream, events.drop_last()).1->Attempt_0;
                law_only_last_delivery_is_eof(stream, events.drop_last());
                crate::retrying_run::law_attempt_resumes_behind_last_delivery(
                    stream,
                    events.drop_last(),
                );
                law_fetch_tasks_serve_in_sequence(attempt, attempt_events, log);
                let head = crate::retrying_run::delivered(stream, events.drop_last());
                let tail = delivered(attempt, attempt_events);
                let received = crate::retrying_run::delivered(stream, events);
                assert forall|i: int| 0 <= i < received.len() implies is_true_to(
                    #[trigger] received[i],
                    log,
                ) by {
                    if i < head.len() {
                        assert(received[i] == head[i]);
                    } else {
                        assert(received[i] == tail[i - head.len()]);
                    }
                }
            },
            RetryEvent::DelayElapsed => {},
        }
    }
}

/// From the log to the consumer: where fetch tasks serve the streams, over all the ingesters that
/// fail and all the attempts, the consumer receives the records of the log behind the position that
/// it asked for, all of them up to the position that it has been brought to, each of them once, and
/// in their order. At the end of the shard, these are all of them up to and including the record
/// that marks it.
pub proof fn law_log_reaches_the_consumer(
    stream: RetryingFetchStreamView,
    events: Seq<RetryEvent>,
    log: Seq<Seq<u8>>,
) -> (to: nat)
    requires
        crate::retrying_run::is_run(stream, events),
        stream.num_attempts == 0,
        stream.from_position_exclusive != Position::Eof,
        is_log_in_range(log),
        all_served_by_fetch_tasks(stream, events, log),
    ensures
        ({
            let received = crate::retrying_run::delivered(stream, events);
            let end = crate::retrying_run::run(stream, events).0;
            let read = stretch(log, offset_after(stream.from_position_exclusive), to);
            &&& offset_after(stream.from_position_exclusive) <= to
            &&& carried_bytes(received) == read.flatten()
            &&& carried_lengths(received) == stated_lengths(read)
            &&& is_reached_at(end.from_position_exclusive, log, to)
        }),
{
    law_fetch_tasks_serve_all_attempts(stream, events, log);
    law_consumer_receives_the_log(stream, events, log)
}

/// A stream that is open has been asked for the shard of the run, and what the run sends is the
/// last of what that stream has given.
proof fn lemma_open_stream_is_of_the_shard(
    stream: FaultTolerantFetchStreamView,
    events: Seq<FetchStreamEvent>,
)
    requires
        is_run(stream, events),
        stream.ingester_idx == 0,
    ensures
        run(stream, events).1 is AwaitResponse || run(stream, events).1 is SendResponse ==> {
            &&& opened_request(stream, events) is Some
            &&& opened_request(stream, events)->0.index_uid == stream.index_uid
            &&& opened_request(stream, events)->0.source_id == stream.source_id
            &&& opened_request(stream, events)->0.shard_id == stream.shard_id
        },
        run(stream, events).1 matches FetchStreamActionView::SendResponse(response) ==> {
            &&& events.len() > 0
            &&& events.last() == (FetchStreamEvent::Response { response_opt: Some(Ok(response)) })
            &&& opened_responses(stream, events).len() > 0
            &&& opened_responses(stream, events).last() == response
        },
    decreases events.len(),
{
    if events.len() > 0 {
        lemma_open_stream_is_of_the_shard(stream, events.drop_last());
        law_requests_are_for_the_stream(stream, events.drop_last());
    }
}

/// Every response that is delivered to the consumer, or is on its way, is for the index, the source
/// and the shard of the stream, whichever ingester it came from.
pub proof fn law_deliveries_are_for_the_shard_of_the_stream(
    stream: FaultTolerantFetchStreamView,
    events: Seq<FetchStreamEvent>,
    log: Seq<Seq<u8>>,
)
    requires
        is_run(stream, events),
        stream.ingester_idx == 0,
        is_served_by_fetch_tasks(stream, events, log),
    ensures
        ({
            let received = delivered(stream, events);
            forall|i: int|
                0 <= i < received.len() ==> {
                    &&& (#[trigger] received[i]).index_uid == stream.index_uid
                    &&& received[i].source_id == stream.source_id
                    &&& received[i].shard_id == stream.shard_id
                }
        }),
        run(stream, events).1 matches FetchStreamActionView::SendResponse(response) ==> {
            &&& response.index_uid == stream.index_uid
            &&& response.source_id == stream.source_id
            &&& response.shard_id == stream.shard_id
        },
    decreases events.len(),
{
    lemma_open_stream_is_of_the_shard(stream, events);
    if run(stream, events).1 is SendResponse {
        let given = opened_responses(stream, events);
        let request = opened_request(stream, events)->0;
        let (batch_num_bytes, task_events) = choose|
            batch_num_bytes: nat,
            task_events: Seq<FetchTaskEvent>,
        |
            are_first_of_run(given, request, log, batch_num_bytes, task_events);
        law_responses_are_for_the_shard_of_the_request(
            request,
            batch_num_bytes,
            task_events,
            log,
        );
        assert(given.last() == responses(
            initial_task(request, batch_num_bytes),
            task_events,
        )[given.len() - 1]);
    }
    if events.len() > 0 {
        law_deliveries_are_for_the_shard_of_the_stream(stream, events.drop_last(), log);
        let head = delivered(stream, events.drop_last());
        let received = delivered(stream, events);
        assert forall|i: int| 0 <= i < received.len() implies {
            &&& (#[trigger] received[i]).index_uid == stream.index_uid
            &&& received[i].source_id == stream.source_id
            &&& received[i].shard_id == stream.shard_id
        } by {
            if i < head.len() {
                assert(received[i] == head[i]);
            }
        }
    }
}

/// Over all of its attempts, every response that is delivered to the consumer is for the index, the
/// source and the shard that the stream was created for.
pub proof fn law_all_deliveries_are_for_the_shard_of_the_stream(
    stream: RetryingFetchStreamView,
    events: Seq<RetryEvent>,
    log: Seq<Seq<u8>>,
)
    requires
        crate::retrying_run::is_run(stream, events),
        stream.num_attempts == 0,
        all_served_by_fetch_tasks(stream, events, log),
    ensures
        ({
            let received = crate::retrying_run::delivered(stream, events);
            forall|i: int|
                0 <= i < received.len() ==> {
                    &&& (#[trigger] received[i]).index_uid == stream.index_uid
                    &&& received[i].source_id == stream.source_id
                    &&& received[i].shard_id == stream.shard_id
                }
        }),
    decreases events.len(),
{
    if events.len() > 0 {
        law_all_deliveries_are_for_the_shard_of_the_stream(stream, events.drop_last(), log);
        law_attempts_are_over_all_ingesters(stream, events.drop_last());
        match events.last() {
            RetryEvent::AttemptFinished { events: attempt_events } => {
                let attempt = crate::retrying_run::run(stream, events.drop_last()).1->Attempt_0;
                law_deliveries_are_for_the_shard_of_the_stream(attempt, attempt_events, log);
                let head = crate::retrying_run::delivered(stream, events.drop_last());
                let tail = delivered(attempt, attempt_events);
                let received = crate::retrying_run::delivered(stream, events);
                assert forall|i: int| 0 <= i < received.len() implies {
                    &&& (#[trigger] received[i]).index_uid == stream.index_uid
                    &&& received[i].source_id == stream.source_id
                    &&& received[i].shard_id == stream.shard_id
                } by {
                    if i < head.len() {
                        assert(received[i] == head[i]);
                    } else {
                        assert(received[i] == tail[i - head.len()]);
                    }
                }
            },
            RetryEvent::DelayElapsed => {},
        }
    }
}

} // verus!

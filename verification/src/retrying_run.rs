//! Runs of a retrying fetch stream, from its start on, and what holds of all of them.
use vstd::prelude::*;

use crate::fault_tolerant_run::{
    are_contiguous, is_served_in_sequence, law_delivery_is_contiguous,
    law_nothing_follows_eof, law_resumes_behind_last_delivery, reached_position, FetchStreamEvent,
};
use crate::message::FetchResponseV2View;
use crate::position::Position;
use crate::retrying::{RetryActionView, RetryingFetchStreamView};

verus! {

/// What a retrying fetch stream is told: what became of the action that it asked for.
pub enum RetryEvent {
    /// The attempt has run through these events, to its close.
    AttemptFinished { events: Seq<FetchStreamEvent> },
    DelayElapsed,
}

/// The event tells what became of the action.
pub open spec fn answers(event: RetryEvent, action: RetryActionView) -> bool {
    match action {
        RetryActionView::Attempt(attempt) => {
            &&& event matches RetryEvent::AttemptFinished { events }
            &&& crate::fault_tolerant_run::is_run(attempt, events)
            &&& crate::fault_tolerant_run::run(attempt, events).1 is Close
        },
        RetryActionView::Sleep { .. } => event is DelayElapsed,
        RetryActionView::Finish => false,
    }
}

/// The state after an event that answers the action `pending`, and the action that follows.
pub open spec fn step(
    stream: RetryingFetchStreamView,
    pending: RetryActionView,
    event: RetryEvent,
) -> (RetryingFetchStreamView, RetryActionView) {
    match event {
        RetryEvent::AttemptFinished { events } => stream.after_attempt(
            crate::fault_tolerant_run::run(pending->Attempt_0, events).0.from_position_exclusive,
        ),
        RetryEvent::DelayElapsed => stream.after_delay(),
    }
}

/// The state after a sequence of events, and the action that follows.
pub open spec fn run(stream: RetryingFetchStreamView, events: Seq<RetryEvent>) -> (
    RetryingFetchStreamView,
    RetryActionView,
)
    decreases events.len(),
{
    if events.len() == 0 {
        stream.after_delay()
    } else {
        let (before, pending) = run(stream, events.drop_last());
        step(before, pending, events.last())
    }
}

/// The events can follow one another: each answers the action before it.
pub open spec fn is_run(stream: RetryingFetchStreamView, events: Seq<RetryEvent>) -> bool
    decreases events.len(),
{
    events.len() > 0 ==> {
        &&& is_run(stream, events.drop_last())
        &&& answers(events.last(), run(stream, events.drop_last()).1)
    }
}

/// The delays that a run has asked for, in order, each by the number of attempts before it.
pub open spec fn delays(stream: RetryingFetchStreamView, events: Seq<RetryEvent>) -> Seq<nat>
    decreases events.len(),
{
    if events.len() == 0 {
        Seq::empty()
    } else {
        let before = delays(stream, events.drop_last());
        match run(stream, events).1 {
            RetryActionView::Sleep { num_attempts } => before.push(num_attempts),
            _ => before,
        }
    }
}

/// The responses that have reached the consumer, over all attempts, in order.
pub open spec fn delivered(
    stream: RetryingFetchStreamView,
    events: Seq<RetryEvent>,
) -> Seq<FetchResponseV2View>
    decreases events.len(),
{
    if events.len() == 0 {
        Seq::empty()
    } else {
        let before = delivered(stream, events.drop_last());
        match events.last() {
            RetryEvent::AttemptFinished { events: attempt_events } => before
                + crate::fault_tolerant_run::delivered(
                run(stream, events.drop_last()).1->Attempt_0,
                attempt_events,
            ),
            RetryEvent::DelayElapsed => before,
        }
    }
}

/// In every attempt, every ingester serves what it has been asked for.
pub open spec fn all_served_in_sequence(
    stream: RetryingFetchStreamView,
    events: Seq<RetryEvent>,
) -> bool
    decreases events.len(),
{
    events.len() > 0 ==> {
        &&& all_served_in_sequence(stream, events.drop_last())
        &&& events.last() matches RetryEvent::AttemptFinished { events: attempt_events }
            ==> is_served_in_sequence(
            run(stream, events.drop_last()).1->Attempt_0,
            attempt_events,
        )
    }
}

/// What holds of every state of a run.
spec fn invariant_of_runs(stream: RetryingFetchStreamView, events: Seq<RetryEvent>) -> bool {
    let (end, action) = run(stream, events);
    let waited = delays(stream, events);
    &&& end == (RetryingFetchStreamView {
        from_position_exclusive: end.from_position_exclusive,
        num_attempts: end.num_attempts,
        ..stream
    })
    &&& end.num_attempts <= stream.max_attempts
    &&& action matches RetryActionView::Attempt(attempt) ==> attempt == end.attempt()
        && end.num_attempts > 0
    &&& action matches RetryActionView::Sleep { num_attempts } ==> {
        &&& num_attempts == end.num_attempts
        &&& end.from_position_exclusive != Position::Eof
    }
    &&& action is Finish ==> {
        ||| end.num_attempts == stream.max_attempts
        ||| end.from_position_exclusive == Position::Eof
    }
    &&& waited.len() == end.num_attempts - if action is Attempt {
        1int
    } else if action is Finish && events.len() > 0 && events.last() is AttemptFinished {
        1int
    } else {
        0int
    }
    &&& forall|i: int| 0 <= i < waited.len() ==> #[trigger] waited[i] == i + 1
    &&& end.from_position_exclusive == reached_position(
        stream.from_position_exclusive,
        delivered(stream, events),
    )
}

/// The position reached by two runs of responses, one behind the other.
proof fn lemma_reached_position_concat(
    from_position_exclusive: Position,
    head: Seq<FetchResponseV2View>,
    tail: Seq<FetchResponseV2View>,
)
    ensures
        reached_position(from_position_exclusive, head + tail) == reached_position(
            reached_position(from_position_exclusive, head),
            tail,
        ),
{
    if tail.len() == 0 {
        assert(head + tail =~= head);
    } else {
        assert((head + tail).last() == tail.last());
    }
}

/// Two runs of responses that link up, the second behind the first, link up together.
proof fn lemma_contiguous_concat(
    from_position_exclusive: Position,
    head: Seq<FetchResponseV2View>,
    tail: Seq<FetchResponseV2View>,
)
    requires
        are_contiguous(from_position_exclusive, head),
        are_contiguous(reached_position(from_position_exclusive, head), tail),
    ensures
        are_contiguous(from_position_exclusive, head + tail),
{
    let joined = head + tail;
    assert forall|i: int| 0 <= i < joined.len() implies #[trigger] joined[i]
        .from_position_exclusive() == reached_position(
        from_position_exclusive,
        joined.take(i),
    ) by {
        if i < head.len() {
            assert(joined[i] == head[i]);
            assert(joined.take(i) =~= head.take(i));
        } else {
            let k = i - head.len();
            assert(joined[i] == tail[k]);
            assert(joined.take(i) =~= head + tail.take(k));
            lemma_reached_position_concat(from_position_exclusive, head, tail.take(k));
        }
    }
}

proof fn lemma_runs_keep_invariant(stream: RetryingFetchStreamView, events: Seq<RetryEvent>)
    requires
        is_run(stream, events),
        stream.num_attempts == 0,
    ensures
        invariant_of_runs(stream, events),
    decreases events.len(),
{
    if events.len() > 0 {
        lemma_runs_keep_invariant(stream, events.drop_last());
        let (before, pending) = run(stream, events.drop_last());
        match events.last() {
            RetryEvent::AttemptFinished { events: attempt_events } => {
                let attempt = pending->Attempt_0;
                law_resumes_behind_last_delivery(attempt, attempt_events);
                lemma_reached_position_concat(
                    stream.from_position_exclusive,
                    delivered(stream, events.drop_last()),
                    crate::fault_tolerant_run::delivered(attempt, attempt_events),
                );
            },
            RetryEvent::DelayElapsed => {},
        }
    }
}

/// A shard is attempted at most as often as the retry parameters allow. Every attempt is followed
/// by a delay, but for one that is under way or has reached the end of the shard, and the delays
/// are those due after one attempt, after two, and so on.
pub proof fn law_attempts_are_limited(stream: RetryingFetchStreamView, events: Seq<RetryEvent>)
    requires
        is_run(stream, events),
        stream.num_attempts == 0,
    ensures
        run(stream, events).0.num_attempts <= stream.max_attempts,
        delays(stream, events).len() == run(stream, events).0.num_attempts - if run(
            stream,
            events,
        ).1 is Attempt || (run(stream, events).1 is Finish && events.len() > 0
            && events.last() is AttemptFinished) {
            1int
        } else {
            0int
        },
        forall|i: int|
            0 <= i < delays(stream, events).len() ==> #[trigger] delays(stream, events)[i] == i + 1,
{
    lemma_runs_keep_invariant(stream, events);
}

/// Attempts go on until the end of the shard is reached or none is left, and no longer.
pub proof fn law_retries_until_eof(stream: RetryingFetchStreamView, events: Seq<RetryEvent>)
    requires
        is_run(stream, events),
        stream.num_attempts == 0,
    ensures
        ({
            let (end, action) = run(stream, events);
            &&& action is Finish ==> {
                ||| end.num_attempts == stream.max_attempts
                ||| end.from_position_exclusive == Position::Eof
            }
            &&& events.len() > 0 && events.last() is AttemptFinished && end.from_position_exclusive
                == Position::Eof ==> action is Finish
            &&& action is Sleep ==> end.from_position_exclusive != Position::Eof
        }),
{
    lemma_runs_keep_invariant(stream, events);
}

/// Every attempt starts with the first ingester, behind what the consumer has received in the
/// attempts before it.
pub proof fn law_attempt_resumes_behind_last_delivery(
    stream: RetryingFetchStreamView,
    events: Seq<RetryEvent>,
)
    requires
        is_run(stream, events),
        stream.num_attempts == 0,
        run(stream, events).1 is Attempt,
    ensures
        run(stream, events).1 == RetryActionView::Attempt(
            (RetryingFetchStreamView {
                from_position_exclusive: reached_position(
                    stream.from_position_exclusive,
                    delivered(stream, events),
                ),
                ..stream
            }).attempt(),
        ),
{
    lemma_runs_keep_invariant(stream, events);
}

/// Nothing is delivered behind the end of the shard, in the attempt that reaches it or in another:
/// of all the responses that a consumer receives, only the last can reach it.
pub proof fn law_only_last_delivery_is_eof(
    stream: RetryingFetchStreamView,
    events: Seq<RetryEvent>,
)
    requires
        is_run(stream, events),
        stream.num_attempts == 0,
        stream.from_position_exclusive != Position::Eof,
    ensures
        ({
            let received = delivered(stream, events);
            let (end, action) = run(stream, events);
            &&& end.from_position_exclusive == reached_position(
                stream.from_position_exclusive,
                received,
            )
            &&& forall|i: int|
                0 <= i < received.len() - 1 ==> (#[trigger] received[i]).to_position_inclusive()
                    != Position::Eof
            &&& end.from_position_exclusive == Position::Eof ==> action is Finish
        }),
    decreases events.len(),
{
    lemma_runs_keep_invariant(stream, events);
    if events.len() > 0 {
        law_only_last_delivery_is_eof(stream, events.drop_last());
        match events.last() {
            RetryEvent::AttemptFinished { events: attempt_events } => {
                let attempt = run(stream, events.drop_last()).1->Attempt_0;
                lemma_runs_keep_invariant(stream, events.drop_last());
                let head = delivered(stream, events.drop_last());
                let tail = crate::fault_tolerant_run::delivered(attempt, attempt_events);
                let received = delivered(stream, events);
                assert forall|i: int| 0 <= i < received.len() - 1 implies (#[trigger] received[i])
                    .to_position_inclusive() != Position::Eof by {
                    if i < head.len() {
                        assert(received[i] == head[i]);
                    } else {
                        assert(received[i] == tail[i - head.len()]);
                        if tail[i - head.len()].to_position_inclusive() == Position::Eof {
                            law_nothing_follows_eof(attempt, attempt_events, i - head.len());
                        }
                    }
                }
            },
            RetryEvent::DelayElapsed => {},
        }
    }
}

/// Where each stream is served in sequence, so is the consumer, across all the ingesters that fail
/// and all the attempts: what is delivered starts at the position that was asked for, and has no
/// gap and no repetition.
pub proof fn law_delivery_is_contiguous_across_attempts(
    stream: RetryingFetchStreamView,
    events: Seq<RetryEvent>,
)
    requires
        is_run(stream, events),
        all_served_in_sequence(stream, events),
        stream.num_attempts == 0,
    ensures
        are_contiguous(stream.from_position_exclusive, delivered(stream, events)),
    decreases events.len(),
{
    if events.len() > 0 {
        lemma_runs_keep_invariant(stream, events.drop_last());
        law_delivery_is_contiguous_across_attempts(stream, events.drop_last());
        match events.last() {
            RetryEvent::AttemptFinished { events: attempt_events } => {
                let attempt = run(stream, events.drop_last()).1->Attempt_0;
                law_delivery_is_contiguous(attempt, attempt_events);
                lemma_contiguous_concat(
                    stream.from_position_exclusive,
                    delivered(stream, events.drop_last()),
                    crate::fault_tolerant_run::delivered(attempt, attempt_events),
                );
            },
            RetryEvent::DelayElapsed => {},
        }
    }
}

} // verus!

//! Runs of a fetch task, from its start on, and what holds of all of them.
use vstd::prelude::*;

use crate::fetch_task::{initial_task, FetchStreamTaskView, FetchTaskActionView};
use crate::message::{FetchResponseV2View, OpenFetchStreamRequestView};
use crate::mrecord::{
    eof_mrecord, is_batch_of, law_batch_of_bytes_has_bytes, law_last_mrecord_is_last_taken,
    law_oversized_record_is_taken_alone, lemma_batch_exists, lemma_batch_is_wf, stated_lengths,
    FilledBatchView,
};
use crate::position::{position_before, Position};

verus! {

/// What a fetch task is told: what became of the action that it asked for.
pub enum FetchTaskEvent {
    NewRecords { shard_dropped: bool },
    QueueDropped,
    /// The records that were read, and the batch that was filled with them.
    MRecords { mrecords: Seq<Seq<u8>>, batch: FilledBatchView },
    ResponseSent { delivered: bool },
}

/// The event tells what became of the action.
pub open spec fn answers(event: FetchTaskEvent, action: FetchTaskActionView) -> bool {
    match action {
        FetchTaskActionView::AwaitNewRecords => event is NewRecords,
        FetchTaskActionView::ReadMRecords { .. } => event is QueueDropped || event is MRecords,
        FetchTaskActionView::SendResponse(_) => event is ResponseSent,
        FetchTaskActionView::Stop(_) => false,
    }
}

/// The state after an event, and the action that follows.
pub open spec fn step(task: FetchStreamTaskView, event: FetchTaskEvent) -> (
    FetchStreamTaskView,
    FetchTaskActionView,
) {
    match event {
        FetchTaskEvent::NewRecords { shard_dropped } => (
            task,
            if shard_dropped {
                task.stop()
            } else {
                task.read()
            },
        ),
        FetchTaskEvent::QueueDropped => (task, task.stop()),
        FetchTaskEvent::MRecords { mrecords, batch } => (
            task.after_batch(batch),
            task.batch_action(batch),
        ),
        FetchTaskEvent::ResponseSent { delivered } => (task, task.sent_action(delivered)),
    }
}

/// The state after a sequence of events, and the action that follows.
pub open spec fn run(task: FetchStreamTaskView, events: Seq<FetchTaskEvent>) -> (
    FetchStreamTaskView,
    FetchTaskActionView,
)
    decreases events.len(),
{
    if events.len() == 0 {
        (task, task.next_action())
    } else {
        step(run(task, events.drop_last()).0, events.last())
    }
}

/// `mrecords` is what a read of `log` finds from a position on, at a time when the log may not
/// hold all of its records yet.
pub open spec fn is_read_of(mrecords: Seq<Seq<u8>>, log: Seq<Seq<u8>>, from: nat) -> bool {
    forall|i: int|
        0 <= i < mrecords.len() ==> from + i < log.len() && #[trigger] mrecords[i] == log[from + i]
}

/// The batch is the one that a task fills from the log at its position.
pub open spec fn is_batch_from(
    batch: FilledBatchView,
    mrecords: Seq<Seq<u8>>,
    task: FetchStreamTaskView,
    log: Seq<Seq<u8>>,
) -> bool {
    &&& is_read_of(mrecords, log, task.from_position_inclusive)
    &&& is_batch_of(batch, mrecords, task.batch_num_bytes)
}

/// The events can follow one another: each answers the action before it, and each read finds what
/// the log holds.
pub open spec fn is_run(
    task: FetchStreamTaskView,
    events: Seq<FetchTaskEvent>,
    log: Seq<Seq<u8>>,
) -> bool
    decreases events.len(),
{
    events.len() > 0 ==> {
        let (before, action) = run(task, events.drop_last());
        &&& is_run(task, events.drop_last(), log)
        &&& answers(events.last(), action)
        &&& events.last() matches FetchTaskEvent::MRecords { mrecords, batch } ==> is_batch_from(
            batch,
            mrecords,
            before,
            log,
        )
    }
}

/// The responses that a run sends, in order.
pub open spec fn responses(task: FetchStreamTaskView, events: Seq<FetchTaskEvent>) -> Seq<
    FetchResponseV2View,
>
    decreases events.len(),
{
    if events.len() == 0 {
        Seq::empty()
    } else {
        let before = responses(task, events.drop_last());
        match run(task, events).1 {
            FetchTaskActionView::SendResponse(response) => before.push(response),
            _ => before,
        }
    }
}

/// The bytes that responses carry, in order.
pub open spec fn carried_bytes(responses: Seq<FetchResponseV2View>) -> Seq<u8> {
    responses.map_values(
        |response: FetchResponseV2View| response.mrecord_batch->0.mrecord_buffer,
    ).flatten()
}

/// The lengths that responses state, in order.
pub open spec fn carried_lengths(responses: Seq<FetchResponseV2View>) -> Seq<u32> {
    responses.map_values(
        |response: FetchResponseV2View| response.mrecord_batch->0.mrecord_lengths,
    ).flatten()
}

/// The records of a log from one position up to another.
pub open spec fn stretch(log: Seq<Seq<u8>>, from: nat, to: nat) -> Seq<Seq<u8>> {
    Seq::new((to - from) as nat, |i: int| log[from + i])
}

/// What holds of every state of a run: the responses carry the stretch of the log that has been
/// read, and link up.
spec fn invariant_of_runs(
    task: FetchStreamTaskView,
    events: Seq<FetchTaskEvent>,
    log: Seq<Seq<u8>>,
) -> bool {
    let (end, action) = run(task, events);
    let sent = responses(task, events);
    &&& end == (FetchStreamTaskView {
        from_position_inclusive: end.from_position_inclusive,
        has_drained_queue: end.has_drained_queue,
        has_reached_eof: end.has_reached_eof,
        ..task
    })
    &&& end.from_position_inclusive >= task.from_position_inclusive
    &&& (action is ReadMRecords || action is AwaitNewRecords) ==> !end.has_reached_eof
    &&& action matches FetchTaskActionView::ReadMRecords { from_position_inclusive }
        ==> from_position_inclusive == end.from_position_inclusive
    &&& action is Stop ==> action == end.stop()
    &&& sent.len() == 0 ==> {
        &&& end.from_position_inclusive == task.from_position_inclusive
        &&& !end.has_reached_eof
    }
    &&& sent.len() > 0 ==> {
        &&& end.from_position_inclusive > task.from_position_inclusive
        &&& sent[0].from_position_exclusive() == position_before(task.from_position_inclusive)
        &&& sent.last().to_position_inclusive() == if end.has_reached_eof {
            Position::Eof
        } else {
            position_before(end.from_position_inclusive)
        }
    }
    &&& forall|i: int|
        0 < i < sent.len() ==> #[trigger] sent[i].from_position_exclusive() == sent[i
            - 1].to_position_inclusive()
    &&& forall|i: int|
        0 <= i < sent.len() - 1 ==> (#[trigger] sent[i]).to_position_inclusive() != Position::Eof
    &&& carried_bytes(sent) == stretch(
        log,
        task.from_position_inclusive,
        end.from_position_inclusive,
    ).flatten()
    &&& carried_lengths(sent) == stated_lengths(
        stretch(log, task.from_position_inclusive, end.from_position_inclusive),
    )
}

/// A batch that a read of the log filled continues the stretch that was read before.
pub proof fn lemma_batch_extends_stretch(
    log: Seq<Seq<u8>>,
    from: nat,
    to: nat,
    mrecords: Seq<Seq<u8>>,
    batch: FilledBatchView,
    capacity: nat,
)
    requires
        from <= to,
        is_read_of(mrecords, log, to),
        is_batch_of(batch, mrecords, capacity),
    ensures
        ({
            let count = batch.mrecord_lengths.len();
            &&& stretch(log, from, to + count).flatten() == stretch(log, from, to).flatten()
                + batch.mrecord_buffer
            &&& stated_lengths(stretch(log, from, to + count)) == stated_lengths(
                stretch(log, from, to),
            ) + batch.mrecord_lengths
        }),
{
    let count = batch.mrecord_lengths.len();
    let taken = mrecords.take(count as int);
    assert(stretch(log, from, to + count) =~= stretch(log, from, to) + taken);
    vstd::seq_lib::lemma_flatten_concat(stretch(log, from, to), taken);
    assert(stated_lengths(stretch(log, from, to) + taken) =~= stated_lengths(
        stretch(log, from, to),
    ) + stated_lengths(taken));
}

/// One response more carries its bytes and states its lengths.
pub proof fn lemma_carried_push(sent: Seq<FetchResponseV2View>, response: FetchResponseV2View)
    ensures
        carried_bytes(sent.push(response)) == carried_bytes(sent)
            + response.mrecord_batch->0.mrecord_buffer,
        carried_lengths(sent.push(response)) == carried_lengths(sent)
            + response.mrecord_batch->0.mrecord_lengths,
{
    let bytes = |response: FetchResponseV2View| response.mrecord_batch->0.mrecord_buffer;
    let lengths = |response: FetchResponseV2View| response.mrecord_batch->0.mrecord_lengths;
    assert(sent.push(response).map_values(bytes) =~= sent.map_values(bytes).push(bytes(response)));
    sent.map_values(bytes).lemma_flatten_push(bytes(response));
    assert(sent.push(response).map_values(lengths) =~= sent.map_values(lengths).push(
        lengths(response),
    ));
    sent.map_values(lengths).lemma_flatten_push(lengths(response));
}

/// Every state of a run keeps the invariant.
proof fn lemma_runs_keep_invariant(
    task: FetchStreamTaskView,
    events: Seq<FetchTaskEvent>,
    log: Seq<Seq<u8>>,
)
    requires
        is_run(task, events, log),
        !task.has_reached_eof,
    ensures
        invariant_of_runs(task, events, log),
    decreases events.len(),
{
    let (end, action) = run(task, events);
    let sent = responses(task, events);
    if events.len() == 0 {
        assert(stretch(log, task.from_position_inclusive, task.from_position_inclusive)
            =~= Seq::empty());
        assert(stated_lengths(Seq::<Seq<u8>>::empty()) =~= Seq::empty());
        assert(carried_bytes(sent) =~= Seq::empty());
        assert(carried_lengths(sent) =~= Seq::empty());
    } else {
        let (before, pending) = run(task, events.drop_last());
        let sent_before = responses(task, events.drop_last());
        lemma_runs_keep_invariant(task, events.drop_last(), log);
        match events.last() {
            FetchTaskEvent::MRecords { mrecords, batch } => {
                let capacity = before.batch_num_bytes;
                lemma_batch_is_wf(mrecords, capacity, batch);
                if batch.mrecord_buffer.len() > 0 {
                    let response = before.response(batch);
                    assert(sent == sent_before.push(response));
                    lemma_batch_extends_stretch(
                        log,
                        task.from_position_inclusive,
                        before.from_position_inclusive,
                        mrecords,
                        batch,
                        capacity,
                    );
                    lemma_carried_push(sent_before, response);
                }
            },
            _ => {},
        }
    }
}

/// The responses of a run carry, record by record and without a gap or a repetition, the stretch
/// of the log from the position the task started at to the one it has reached: neither its bytes
/// nor its lengths depend on how the records were batched, or on when they were read.
pub proof fn law_responses_carry_the_log(
    task: FetchStreamTaskView,
    events: Seq<FetchTaskEvent>,
    log: Seq<Seq<u8>>,
)
    requires
        is_run(task, events, log),
        !task.has_reached_eof,
    ensures
        ({
            let end = run(task, events).0;
            let read = stretch(log, task.from_position_inclusive, end.from_position_inclusive);
            let sent = responses(task, events);
            &&& task.from_position_inclusive <= end.from_position_inclusive
            &&& carried_bytes(sent) == read.flatten()
            &&& carried_lengths(sent) == stated_lengths(read)
        }),
{
    lemma_runs_keep_invariant(task, events, log);
}

/// The first response of a run follows the position that was asked for, and each of the others
/// follows the last record of the one before it.
pub proof fn law_responses_are_contiguous(
    task: FetchStreamTaskView,
    events: Seq<FetchTaskEvent>,
    log: Seq<Seq<u8>>,
)
    requires
        is_run(task, events, log),
        !task.has_reached_eof,
    ensures
        ({
            let sent = responses(task, events);
            &&& sent.len() > 0 ==> sent[0].from_position_exclusive() == position_before(
                task.from_position_inclusive,
            )
            &&& forall|i: int|
                0 < i < sent.len() ==> #[trigger] sent[i].from_position_exclusive() == sent[i
                    - 1].to_position_inclusive()
        }),
{
    lemma_runs_keep_invariant(task, events, log);
}

/// A request, other than one for what follows the end of the shard, is answered with responses
/// that follow the very position of the request.
pub proof fn law_first_response_follows_request(
    request: OpenFetchStreamRequestView,
    batch_num_bytes: nat,
    events: Seq<FetchTaskEvent>,
    log: Seq<Seq<u8>>,
)
    requires
        is_run(initial_task(request, batch_num_bytes), events, log),
        request.from_position_exclusive() != Position::Eof,
        responses(initial_task(request, batch_num_bytes), events).len() > 0,
    ensures
        responses(initial_task(request, batch_num_bytes), events)[0].from_position_exclusive()
            == request.from_position_exclusive(),
{
    law_responses_are_contiguous(initial_task(request, batch_num_bytes), events, log);
}

/// Nothing follows the end of the shard: only the last response of a run can reach it.
pub proof fn law_nothing_follows_eof(
    task: FetchStreamTaskView,
    events: Seq<FetchTaskEvent>,
    log: Seq<Seq<u8>>,
    i: int,
)
    requires
        is_run(task, events, log),
        !task.has_reached_eof,
        0 <= i < responses(task, events).len(),
        responses(task, events)[i].to_position_inclusive() == Position::Eof,
    ensures
        i == responses(task, events).len() - 1,
        run(task, events).1 is SendResponse || run(task, events).1
            == FetchTaskActionView::Stop(None),
{
    lemma_runs_keep_invariant(task, events, log);
}

/// A task that ends without an error has sent the end of the shard, and one that ends with an
/// error has not.
pub proof fn law_ends_with_error_unless_eof_was_sent(
    task: FetchStreamTaskView,
    events: Seq<FetchTaskEvent>,
    log: Seq<Seq<u8>>,
)
    requires
        is_run(task, events, log),
        !task.has_reached_eof,
        run(task, events).1 is Stop,
    ensures
        ({
            let sent = responses(task, events);
            run(task, events).1 == FetchTaskActionView::Stop(None) <==> sent.len() > 0
                && sent.last().to_position_inclusive() == Position::Eof
        }),
{
    lemma_runs_keep_invariant(task, events, log);
}

/// Where no record is longer than the lengths of a batch can state, a response reaches the end of
/// the shard if and only if the record that marks it is the last that the response carries.
pub proof fn law_eof_is_the_eof_record(
    task: FetchStreamTaskView,
    events: Seq<FetchTaskEvent>,
    log: Seq<Seq<u8>>,
)
    requires
        is_run(task, events, log),
        !task.has_reached_eof,
        run(task, events).1 is SendResponse,
        forall|i: int| 0 <= i < log.len() ==> (#[trigger] log[i]).len() <= u32::MAX,
    ensures
        ({
            let end = run(task, events).0;
            responses(task, events).last().to_position_inclusive() == Position::Eof
                <==> log[end.from_position_inclusive - 1] == eof_mrecord()
        }),
{
    if events.len() > 0 {
        let (before, pending) = run(task, events.drop_last());
        lemma_runs_keep_invariant(task, events.drop_last(), log);
        match events.last() {
            FetchTaskEvent::MRecords { mrecords, batch } => {
                let capacity = before.batch_num_bytes;
                lemma_batch_is_wf(mrecords, capacity, batch);
                if batch.mrecord_buffer.len() > 0 {
                    let last = batch.mrecord_lengths.len() - 1;
                    assert(mrecords[last] == log[before.from_position_inclusive + last]);
                    law_last_mrecord_is_last_taken(mrecords, capacity, batch);
                }
            },
            _ => {},
        }
    }
}

/// A read that finds a byte makes progress: a batch is sent, and the position moves on.
pub proof fn law_read_makes_progress(
    task: FetchStreamTaskView,
    mrecords: Seq<Seq<u8>>,
    batch: FilledBatchView,
)
    requires
        is_batch_of(batch, mrecords, task.batch_num_bytes),
        mrecords.flatten().len() > 0,
    ensures
        task.batch_action(batch) == FetchTaskActionView::SendResponse(task.response(batch)),
        task.after_batch(batch).from_position_inclusive > task.from_position_inclusive,
{
    law_batch_of_bytes_has_bytes(mrecords, task.batch_num_bytes, batch);
    lemma_batch_is_wf(mrecords, task.batch_num_bytes, batch);
}

/// A record that is larger than a batch is sent all the same: a read that finds it behind records
/// without bytes, `count` in number, sends it whole, with no other byte, and moves on behind it.
pub proof fn law_oversized_record_is_sent_alone(
    task: FetchStreamTaskView,
    mrecords: Seq<Seq<u8>>,
    batch: FilledBatchView,
    count: int,
)
    requires
        is_batch_of(batch, mrecords, task.batch_num_bytes),
        0 <= count < mrecords.len(),
        mrecords.take(count).flatten().len() == 0,
        mrecords[count].len() > task.batch_num_bytes,
    ensures
        task.batch_action(batch) == FetchTaskActionView::SendResponse(task.response(batch)),
        task.response(batch).mrecord_batch->0.mrecord_buffer == mrecords[count],
        task.after_batch(batch).from_position_inclusive == task.from_position_inclusive + count + 1,
{
    law_oversized_record_is_taken_alone(mrecords, task.batch_num_bytes, batch, count);
}

/// The event leaves a task all it needs to go on: the shard, the queue and the consumer are still
/// there, and a read finds the whole of what the log holds from the position on.
pub open spec fn is_prompt(
    event: FetchTaskEvent,
    task: FetchStreamTaskView,
    log: Seq<Seq<u8>>,
) -> bool {
    match event {
        FetchTaskEvent::NewRecords { shard_dropped } => !shard_dropped,
        FetchTaskEvent::QueueDropped => false,
        FetchTaskEvent::MRecords { mrecords, batch } => mrecords == stretch(
            log,
            task.from_position_inclusive,
            log.len(),
        ),
        FetchTaskEvent::ResponseSent { delivered } => delivered,
    }
}

/// Every event of a run leaves the task all it needs to go on.
pub open spec fn is_prompt_run(
    task: FetchStreamTaskView,
    events: Seq<FetchTaskEvent>,
    log: Seq<Seq<u8>>,
) -> bool
    decreases events.len(),
{
    &&& is_run(task, events, log)
    &&& events.len() > 0 ==> {
        &&& is_prompt_run(task, events.drop_last(), log)
        &&& is_prompt(events.last(), run(task, events.drop_last()).0, log)
    }
}

/// The log of a shard that has been closed: the record that marks the end is its last, and no
/// record is longer than the lengths of a batch can state.
pub open spec fn is_closed_log(log: Seq<Seq<u8>>) -> bool {
    &&& log.len() > 0
    &&& log.last() == eof_mrecord()
    &&& forall|i: int| 0 <= i < log.len() ==> (#[trigger] log[i]).len() <= u32::MAX
}

/// What is left of a closed log has bytes, those of its last record.
proof fn lemma_rest_of_closed_log_has_bytes(log: Seq<Seq<u8>>, from: nat)
    requires
        is_closed_log(log),
        from < log.len(),
    ensures
        stretch(log, from, log.len()).flatten().len() > 0,
{
    let rest = stretch(log, from, log.len());
    assert(rest =~= rest.drop_last().push(log.last()));
    rest.drop_last().lemma_flatten_push(log.last());
}

/// Where a task stands in a closed log: not behind its last record, and at that point only where
/// it has reached the end of the shard.
proof fn lemma_position_in_closed_log(
    task: FetchStreamTaskView,
    events: Seq<FetchTaskEvent>,
    log: Seq<Seq<u8>>,
)
    requires
        is_run(task, events, log),
        is_closed_log(log),
        !task.has_reached_eof,
        task.from_position_inclusive < log.len(),
    ensures
        run(task, events).0.from_position_inclusive <= log.len(),
        !run(task, events).0.has_reached_eof ==> run(task, events).0.from_position_inclusive
            < log.len(),
    decreases events.len(),
{
    if events.len() > 0 {
        lemma_position_in_closed_log(task, events.drop_last(), log);
        let (before, pending) = run(task, events.drop_last());
        match events.last() {
            FetchTaskEvent::MRecords { mrecords, batch } => {
                let capacity = before.batch_num_bytes;
                let from = before.from_position_inclusive;
                let count = batch.mrecord_lengths.len();
                lemma_batch_is_wf(mrecords, capacity, batch);
                if batch.mrecord_buffer.len() > 0 {
                    assert(mrecords[count - 1] == log[from + (count - 1)]);
                    law_last_mrecord_is_last_taken(mrecords, capacity, batch);
                }
            },
            _ => {},
        }
    }
}

/// A task that finds the whole of a closed log at every read waits at most once, at its start, and
/// never ends with an error. It takes no more than two events for each record that is left, one for
/// the read and one for the response, besides that wait.
pub proof fn law_prompt_run_is_bounded(
    task: FetchStreamTaskView,
    events: Seq<FetchTaskEvent>,
    log: Seq<Seq<u8>>,
)
    requires
        is_prompt_run(task, events, log),
        is_closed_log(log),
        !task.has_reached_eof,
        task.from_position_inclusive < log.len(),
    ensures
        ({
            let (end, action) = run(task, events);
            let advance = end.from_position_inclusive - task.from_position_inclusive;
            let waits = if task.has_drained_queue {
                1int
            } else {
                0int
            };
            &&& events.len() <= 2 * (log.len() - task.from_position_inclusive) + waits
            &&& end.has_drained_queue && !end.has_reached_eof ==> task.has_drained_queue && advance
                == 0
            &&& match action {
                FetchTaskActionView::AwaitNewRecords => events.len() == 0
                    && task.has_drained_queue,
                FetchTaskActionView::ReadMRecords { .. } => events.len() <= 2 * advance + waits,
                FetchTaskActionView::SendResponse(_) => advance > 0 && events.len() < 2 * advance
                    + waits,
                FetchTaskActionView::Stop(error_opt) => error_opt is None && events.len() <= 2
                    * advance + waits,
            }
        }),
    decreases events.len(),
{
    lemma_position_in_closed_log(task, events, log);
    if events.len() > 0 {
        law_prompt_run_is_bounded(task, events.drop_last(), log);
        lemma_runs_keep_invariant(task, events.drop_last(), log);
        lemma_position_in_closed_log(task, events.drop_last(), log);
        let (before, pending) = run(task, events.drop_last());
        match events.last() {
            FetchTaskEvent::MRecords { mrecords, batch } => {
                let capacity = before.batch_num_bytes;
                let from = before.from_position_inclusive;
                let count = batch.mrecord_lengths.len();
                lemma_rest_of_closed_log_has_bytes(log, from);
                law_batch_of_bytes_has_bytes(mrecords, capacity, batch);
                lemma_batch_is_wf(mrecords, capacity, batch);
                assert(mrecords[count - 1] == log[from + (count - 1)]);
                law_last_mrecord_is_last_taken(mrecords, capacity, batch);
            },
            _ => {},
        }
    }
}

/// The event breaks a run off: the shard, the queue or the consumer is gone.
pub open spec fn breaks_off(event: FetchTaskEvent) -> bool {
    match event {
        FetchTaskEvent::NewRecords { shard_dropped } => shard_dropped,
        FetchTaskEvent::QueueDropped => true,
        FetchTaskEvent::MRecords { .. } => false,
        FetchTaskEvent::ResponseSent { delivered } => !delivered,
    }
}

/// No event breaks the run off.
pub open spec fn is_unbroken(events: Seq<FetchTaskEvent>) -> bool {
    forall|i: int| 0 <= i < events.len() ==> !breaks_off(#[trigger] events[i])
}

/// A task ends with an error only where it has just been broken off: because the shard, the queue
/// or the consumer is gone.
pub proof fn law_error_follows_a_break(
    task: FetchStreamTaskView,
    events: Seq<FetchTaskEvent>,
    log: Seq<Seq<u8>>,
)
    requires
        is_run(task, events, log),
        run(task, events).1 matches FetchTaskActionView::Stop(Some(_)),
    ensures
        events.len() > 0,
        breaks_off(events.last()),
{
}

/// A read never leads to another one at once: it leads to a response, or the queue is drained and
/// the task waits for new records.
pub proof fn law_task_does_not_poll(
    task: FetchStreamTaskView,
    mrecords: Seq<Seq<u8>>,
    batch: FilledBatchView,
)
    requires
        is_batch_of(batch, mrecords, task.batch_num_bytes),
        !task.has_reached_eof,
    ensures
        task.batch_action(batch) is SendResponse || task.batch_action(batch)
            == FetchTaskActionView::AwaitNewRecords,
{
}

/// Every response moves the position on, so a task sends no more responses than records.
pub proof fn law_responses_are_bounded(
    task: FetchStreamTaskView,
    events: Seq<FetchTaskEvent>,
    log: Seq<Seq<u8>>,
)
    requires
        is_run(task, events, log),
    ensures
        responses(task, events).len() <= run(task, events).0.from_position_inclusive
            - task.from_position_inclusive,
    decreases events.len(),
{
    if events.len() > 0 {
        law_responses_are_bounded(task, events.drop_last(), log);
        let before = run(task, events.drop_last()).0;
        match events.last() {
            FetchTaskEvent::MRecords { mrecords, batch } => {
                lemma_batch_is_wf(mrecords, before.batch_num_bytes, batch);
            },
            _ => {},
        }
    }
}

/// How far an action is from the next read.
spec fn steps_to_read(action: FetchTaskActionView) -> int {
    match action {
        FetchTaskActionView::Stop(_) => 0,
        FetchTaskActionView::ReadMRecords { .. } => 1,
        FetchTaskActionView::AwaitNewRecords => 2,
        FetchTaskActionView::SendResponse(_) => 3,
    }
}

/// A run that is unbroken goes on to the end of the shard, from wherever it stands.
proof fn lemma_unbroken_run_goes_on(
    task: FetchStreamTaskView,
    events: Seq<FetchTaskEvent>,
    log: Seq<Seq<u8>>,
) -> (all_events: Seq<FetchTaskEvent>)
    requires
        is_run(task, events, log),
        is_unbroken(events),
        is_closed_log(log),
        !task.has_reached_eof,
        task.from_position_inclusive < log.len(),
    ensures
        events.is_prefix_of(all_events),
        is_run(task, all_events, log),
        is_unbroken(all_events),
        run(task, all_events).1 == FetchTaskActionView::Stop(None),
    decreases
            log.len() - run(task, events).0.from_position_inclusive,
            steps_to_read(run(task, events).1),
{
    lemma_runs_keep_invariant(task, events, log);
    lemma_position_in_closed_log(task, events, log);
    let (end, action) = run(task, events);
    if action is Stop {
        if action != FetchTaskActionView::Stop(None) {
            law_error_follows_a_break(task, events, log);
            assert(!breaks_off(events[events.len() - 1]));
        }
        assert(events.is_prefix_of(events));
        events
    } else {
        let mrecords = stretch(log, end.from_position_inclusive, log.len());
        let batch = lemma_batch_exists(mrecords, end.batch_num_bytes);
        let event = match action {
            FetchTaskActionView::SendResponse(_) => FetchTaskEvent::ResponseSent {
                delivered: true,
            },
            FetchTaskActionView::AwaitNewRecords => FetchTaskEvent::NewRecords {
                shard_dropped: false,
            },
            _ => FetchTaskEvent::MRecords { mrecords, batch },
        };
        let longer = events.push(event);
        assert(longer.drop_last() =~= events);
        assert(is_run(task, longer, log));
        assert(is_unbroken(longer));
        if action is ReadMRecords {
            lemma_rest_of_closed_log_has_bytes(log, end.from_position_inclusive);
            law_read_makes_progress(end, mrecords, batch);
        }
        lemma_position_in_closed_log(task, longer, log);
        let all_events = lemma_unbroken_run_goes_on(task, longer, log);
        assert(events =~= all_events.subrange(0, events.len() as int)) by {
            assert(longer =~= all_events.subrange(0, events.len() as int + 1));
            assert(events =~= longer.subrange(0, events.len() as int));
        }
        all_events
    }
}

/// Wherever a task stands in a closed log, after whatever waits and partial reads, and however
/// large the records are: as long as the shard, the queue and the consumer are there, it can go on
/// until it has sent the record that marks the end of the shard, and has then sent all of the log
/// that it has passed.
pub proof fn law_task_reaches_eof(
    task: FetchStreamTaskView,
    events: Seq<FetchTaskEvent>,
    log: Seq<Seq<u8>>,
) -> (all_events: Seq<FetchTaskEvent>)
    requires
        is_run(task, events, log),
        is_unbroken(events),
        is_closed_log(log),
        !task.has_reached_eof,
        task.from_position_inclusive < log.len(),
    ensures
        events.is_prefix_of(all_events),
        is_run(task, all_events, log),
        is_unbroken(all_events),
        ({
            let (end, action) = run(task, all_events);
            let sent = responses(task, all_events);
            &&& action == FetchTaskActionView::Stop(None)
            &&& sent.len() > 0
            &&& sent.last().to_position_inclusive() == Position::Eof
            &&& carried_bytes(sent) == stretch(
                log,
                task.from_position_inclusive,
                end.from_position_inclusive,
            ).flatten()
        }),
{
    let all_events = lemma_unbroken_run_goes_on(task, events, log);
    law_ends_with_error_unless_eof_was_sent(task, all_events, log);
    law_responses_carry_the_log(task, all_events, log);
    all_events
}

/// A stream that is opened again at the position that a response reached goes on with the record
/// behind that response.
pub proof fn law_reopened_stream_resumes(
    task: FetchStreamTaskView,
    batch: FilledBatchView,
    request: OpenFetchStreamRequestView,
    batch_num_bytes: nat,
)
    requires
        task.after_batch(batch).wf(),
        batch.wf(),
        batch.mrecord_buffer.len() > 0,
        batch.last_mrecord() != eof_mrecord(),
        request.from_position_exclusive() == task.response(batch).to_position_inclusive(),
    ensures
        initial_task(request, batch_num_bytes).from_position_inclusive == task.after_batch(
            batch,
        ).from_position_inclusive,
{
}

} // verus!

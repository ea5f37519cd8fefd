//! From the log of a shard to its consumer: what arrives is what was written.
use vstd::prelude::*;

use crate::fault_tolerant_run::{are_contiguous, reached_position};
use crate::fetch_task::FetchStreamTaskView;
use crate::fetch_task_run::{
    carried_bytes, carried_lengths, is_run, lemma_batch_extends_stretch,
    lemma_carried_push, responses, run, stretch, FetchTaskEvent,
};
use crate::message::FetchResponseV2View;
use crate::mrecord::{
    eof_mrecord, law_last_mrecord_is_last_taken, lemma_batch_is_wf, stated_lengths,
};
use crate::position::{offset_after, position_before, Position};
use crate::retrying::RetryingFetchStreamView;
use crate::retrying_run::{
    all_served_in_sequence, law_delivery_is_contiguous_across_attempts,
    law_only_last_delivery_is_eof, RetryEvent,
};

verus! {

/// The shard ends with the record before `to`.
pub open spec fn shard_ends_at(log: Seq<Seq<u8>>, to: nat) -> bool {
    0 < to <= log.len() && log[to - 1] == eof_mrecord()
}

/// The position is that of the record before `to`, or it is the end of the shard, which then is
/// there.
pub open spec fn is_position_of(position: Position, log: Seq<Seq<u8>>, to: nat) -> bool {
    if position == Position::Eof {
        shard_ends_at(log, to)
    } else {
        position == position_before(to)
    }
}

/// The response carries the records of the log that follow its first position, up to the record
/// before `to`, and says so.
pub open spec fn carries(response: FetchResponseV2View, log: Seq<Seq<u8>>, to: nat) -> bool {
    let from = offset_after(response.from_position_exclusive());
    &&& from <= to <= log.len()
    &&& response.mrecord_batch matches Some(mrecord_batch)
    &&& mrecord_batch.mrecord_buffer == stretch(log, from, to).flatten()
    &&& mrecord_batch.mrecord_lengths == stated_lengths(stretch(log, from, to))
    &&& is_position_of(response.to_position_inclusive(), log, to)
}

/// A consumer that has been brought to the position has received the records before `to`, and no
/// other: at the end of the shard, up to and including the record that marks it.
pub open spec fn is_reached_at(position: Position, log: Seq<Seq<u8>>, to: nat) -> bool {
    if position == Position::Eof {
        shard_ends_at(log, to)
    } else {
        to == offset_after(position)
    }
}

/// The response carries the records of the log that its positions promise.
pub open spec fn is_true_to(response: FetchResponseV2View, log: Seq<Seq<u8>>) -> bool {
    exists|to: nat| carries(response, log, to)
}

/// Every response of a fetch task carries the records of the log that its positions promise, and
/// promises the end of the shard only where it carries the record that marks it. No record is
/// longer than the lengths of a batch can state.
pub proof fn law_responses_are_true_to_the_log(
    task: FetchStreamTaskView,
    events: Seq<FetchTaskEvent>,
    log: Seq<Seq<u8>>,
    i: int,
)
    requires
        is_run(task, events, log),
        !task.has_reached_eof,
        log.len() <= u64::MAX,
        forall|j: int| 0 <= j < log.len() ==> (#[trigger] log[j]).len() <= u32::MAX,
        0 <= i < responses(task, events).len(),
    ensures
        is_true_to(responses(task, events)[i], log),
    decreases events.len(),
{
    let (before, pending) = run(task, events.drop_last());
    let sent_before = responses(task, events.drop_last());
    if i < sent_before.len() {
        law_responses_are_true_to_the_log(task, events.drop_last(), log, i);
    } else {
        match events.last() {
            FetchTaskEvent::MRecords { mrecords, batch } => {
                let capacity = before.batch_num_bytes;
                lemma_batch_is_wf(mrecords, capacity, batch);
                let from = before.from_position_inclusive;
                let count = batch.mrecord_lengths.len();
                assert(mrecords[count - 1] == log[from + (count - 1)]);
                law_last_mrecord_is_last_taken(mrecords, capacity, batch);
                lemma_batch_extends_stretch(log, from, from, mrecords, batch, capacity);
                assert(stretch(log, from, from) =~= Seq::empty());
                assert(stretch(log, from, from).flatten() + batch.mrecord_buffer
                    =~= batch.mrecord_buffer);
                assert(stated_lengths(stretch(log, from, from)) + batch.mrecord_lengths
                    =~= batch.mrecord_lengths);
                assert(carries(responses(task, events)[i], log, from + count));
            },
            _ => {},
        }
    }
}

/// No response but the last reaches the end of the shard.
pub open spec fn ends_at_most_once(responses: Seq<FetchResponseV2View>) -> bool {
    forall|i: int|
        0 <= i < responses.len() - 1 ==> (#[trigger] responses[i]).to_position_inclusive()
            != Position::Eof
}

/// Two stretches of a log, the second behind the first, are one.
proof fn lemma_stretches_join(log: Seq<Seq<u8>>, from: nat, mid: nat, to: nat)
    requires
        from <= mid <= to,
    ensures
        stretch(log, from, to).flatten() == stretch(log, from, mid).flatten() + stretch(
            log,
            mid,
            to,
        ).flatten(),
        stated_lengths(stretch(log, from, to)) == stated_lengths(stretch(log, from, mid))
            + stated_lengths(stretch(log, mid, to)),
{
    let head = stretch(log, from, mid);
    let tail = stretch(log, mid, to);
    assert(stretch(log, from, to) =~= head + tail);
    vstd::seq_lib::lemma_flatten_concat(head, tail);
    assert(stated_lengths(head + tail) =~= stated_lengths(head) + stated_lengths(tail));
}

/// Responses that follow one another, and each of which is true to the log, carry one stretch of
/// it: from the position that the first one follows to the one that the last one reaches.
pub proof fn law_contiguous_responses_carry_a_stretch(
    from_position_exclusive: Position,
    received: Seq<FetchResponseV2View>,
    log: Seq<Seq<u8>>,
) -> (to: nat)
    requires
        from_position_exclusive != Position::Eof,
        log.len() <= u64::MAX,
        are_contiguous(from_position_exclusive, received),
        ends_at_most_once(received),
        forall|i: int| 0 <= i < received.len() ==> is_true_to(#[trigger] received[i], log),
    ensures
        offset_after(from_position_exclusive) <= to,
        carried_bytes(received) == stretch(
            log,
            offset_after(from_position_exclusive),
            to,
        ).flatten(),
        carried_lengths(received) == stated_lengths(
            stretch(log, offset_after(from_position_exclusive), to),
        ),
        is_reached_at(reached_position(from_position_exclusive, received), log, to),
    decreases received.len(),
{
    let from = offset_after(from_position_exclusive);
    if received.len() == 0 {
        assert(stretch(log, from, from) =~= Seq::empty());
        assert(stated_lengths(Seq::<Seq<u8>>::empty()) =~= Seq::empty());
        assert(carried_bytes(received) =~= Seq::empty());
        assert(carried_lengths(received) =~= Seq::empty());
        from
    } else {
        let head = received.drop_last();
        let last = received.last();
        assert(received =~= head.push(last));
        assert(head =~= received.take(received.len() - 1));
        assert forall|i: int| 0 <= i < head.len() implies #[trigger] head[i]
            .from_position_exclusive() == reached_position(
            from_position_exclusive,
            head.take(i),
        ) by {
            assert(head[i] == received[i]);
            assert(head.take(i) =~= received.take(i));
        }
        assert forall|i: int| 0 <= i < head.len() implies is_true_to(#[trigger] head[i], log) by {
            assert(head[i] == received[i]);
        }
        assert forall|i: int| 0 <= i < head.len() implies (#[trigger] head[i])
            .to_position_inclusive() != Position::Eof by {
            assert(head[i] == received[i]);
        }
        let mid = law_contiguous_responses_carry_a_stretch(from_position_exclusive, head, log);
        assert(received[received.len() - 1].from_position_exclusive() == reached_position(
            from_position_exclusive,
            head,
        ));
        let to = choose|to: nat| carries(last, log, to);
        assert(is_true_to(received[received.len() - 1], log));
        lemma_carried_push(head, last);
        lemma_stretches_join(log, from, mid, to);
        to
    }
}

/// A consumer receives, over all the ingesters that fail and all the attempts, the records of the
/// log behind the position that it asked for: all of them up to the position that it has been
/// brought to, each of them once, and in their order. At the end of the shard, these are all of
/// them up to and including the record that marks it.
pub proof fn law_consumer_receives_the_log(
    stream: RetryingFetchStreamView,
    events: Seq<RetryEvent>,
    log: Seq<Seq<u8>>,
) -> (to: nat)
    requires
        crate::retrying_run::is_run(stream, events),
        stream.num_attempts == 0,
        stream.from_position_exclusive != Position::Eof,
        log.len() <= u64::MAX,
        all_served_in_sequence(stream, events),
        ({
            let received = crate::retrying_run::delivered(stream, events);
            forall|i: int| 0 <= i < received.len() ==> is_true_to(#[trigger] received[i], log)
        }),
    ensures
        ({
            let received = crate::retrying_run::delivered(stream, events);
            let end = crate::retrying_run::run(stream, events).0;
            let read = stretch(log, offset_after(stream.from_position_exclusive), to);
            &&& offset_after(stream.from_position_exclusive) <= to
            &&& carried_bytes(received) == read.flatten()
            &&& carried_lengths(received) == stated_lengths(read)
            &&& is_reached_at(end.from_position_exclusive, log, to)
        }),
{
    law_delivery_is_contiguous_across_attempts(stream, events);
    law_only_last_delivery_is_eof(stream, events);
    law_contiguous_responses_carry_a_stretch(
        stream.from_position_exclusive,
        crate::retrying_run::delivered(stream, events),
        log,
    )
}

} // verus!

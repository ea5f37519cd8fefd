//! What the operations on positions, identifiers, messages and batches do, in terms of what goes
//! into them and what comes out.
use bytes::BytesMut;
use vstd::prelude::*;

use crate::buffer::{bytes_contents, bytes_mut_contents, bytes_mut_requested_capacity};
use crate::message::{
    FetchResponseV2, FetchStreamError, IngestV2Error, IngestV2ErrorView, MRecordBatch,
    OpenFetchStreamRequest,
};
use crate::mrecord::{
    ends_with_eof, fetch_batch, fill_batch, is_batch_of, is_eof_mrecord,
    law_batch_fills_the_capacity, mrecord_contents, FilledBatch, FilledBatchView,
};
use crate::position::{offset_after, position_before, Position};
use crate::queue_id::{decimal, queue_id, spec_queue_id, QueueId, ShardId};

verus! {

/// The number that a sequence of decimal digits stands for.
pub open spec fn number_of(digits: Seq<char>) -> int
    decreases digits.len(),
{
    if digits.len() == 0 {
        0
    } else {
        10 * number_of(digits.drop_last()) + (digits.last() as int - '0' as int)
    }
}

/// These are decimal digits, at least one, and the first is no zero unless it is the only one.
pub open spec fn is_decimal_notation(digits: Seq<char>) -> bool {
    &&& digits.len() > 0
    &&& forall|i: int| 0 <= i < digits.len() ==> '0' <= #[trigger] digits[i] <= '9'
    &&& digits.len() > 1 ==> digits[0] != '0'
}

/// Decimal notation stands for the number that it was made from.
proof fn lemma_decimal_stands_for_its_number(n: nat)
    ensures
        is_decimal_notation(decimal(n)),
        number_of(decimal(n)) == n,
        n > 0 ==> decimal(n)[0] != '0',
    decreases n,
{
    if n < 10 {
        assert(decimal(n).drop_last() =~= Seq::empty());
        assert(number_of(Seq::<char>::empty()) == 0);
    } else {
        lemma_decimal_stands_for_its_number(n / 10);
        assert(decimal(n).drop_last() =~= decimal(n / 10));
        assert forall|i: int| 0 <= i < decimal(n).len() implies '0' <= #[trigger] decimal(n)[i]
            <= '9' by {
            if i < decimal(n / 10).len() {
                assert(decimal(n)[i] == decimal(n / 10)[i]);
            }
        }
    }
}

/// Of the notations of a number there is but one that has no zero in front.
proof fn lemma_notation_is_decimal(digits: Seq<char>)
    requires
        is_decimal_notation(digits),
    ensures
        number_of(digits) >= 0,
        digits.len() > 1 ==> number_of(digits) >= 10,
        digits == decimal(number_of(digits) as nat),
    decreases digits.len(),
{
    let head = digits.drop_last();
    let last = digits.last();
    assert('0' <= digits[digits.len() - 1] <= '9');
    if digits.len() == 1 {
        assert(number_of(head) == 0);
        assert(digits =~= decimal(number_of(digits) as nat));
    } else {
        assert(head[0] == digits[0]);
        assert forall|i: int| 0 <= i < head.len() implies '0' <= #[trigger] head[i] <= '9' by {
            assert(head[i] == digits[i]);
        }
        lemma_notation_is_decimal(head);
        if head.len() == 1 {
            assert(number_of(head.drop_last()) == 0);
        }
        let n = number_of(digits) as nat;
        assert(n / 10 == number_of(head));
        assert(digits =~= decimal(n));
    }
}

/// The queue is the one of this shard: its identifier is the index, the source and the number of
/// the shard in decimal notation, with a slash after each of the first two.
pub open spec fn is_queue_of(
    queue_id: Seq<char>,
    index_uid: Seq<char>,
    source_id: Seq<char>,
    shard_id: ShardId,
) -> bool {
    exists|digits: Seq<char>|
        {
            &&& #[trigger] is_decimal_notation(digits)
            &&& number_of(digits) == shard_id
            &&& queue_id == index_uid + seq!['/'] + source_id + seq!['/'] + digits
        }
}

/// A shard has one queue, and no other shard of its source has the same.
pub proof fn lemma_queue_of_shard(
    queue_id: Seq<char>,
    index_uid: Seq<char>,
    source_id: Seq<char>,
    shard_id: ShardId,
)
    ensures
        is_queue_of(queue_id, index_uid, source_id, shard_id) <==> queue_id == spec_queue_id(
            index_uid,
            source_id,
            shard_id,
        ),
{
    if is_queue_of(queue_id, index_uid, source_id, shard_id) {
        let digits = choose|digits: Seq<char>|
            {
                &&& #[trigger] is_decimal_notation(digits)
                &&& number_of(digits) == shard_id
                &&& queue_id == index_uid + seq!['/'] + source_id + seq!['/'] + digits
            };
        lemma_notation_is_decimal(digits);
    }
    lemma_decimal_stands_for_its_number(shard_id as nat);
}

/// The identifier of the queue of a shard spells the shard out.
pub proof fn law_queue_id_spells_out_its_shard(
    index_uid: &str,
    source_id: &str,
    shard_id: ShardId,
    id: QueueId,
)
    requires
        call_ensures(queue_id, (index_uid, source_id, shard_id), id),
    ensures
        is_queue_of(id@, index_uid@, source_id@, shard_id),
{
    lemma_queue_of_shard(id@, index_uid@, source_id@, shard_id);
}

/// The queue of a shard is not the queue of another shard of the same source.
pub proof fn law_queue_is_of_one_shard(
    queue_id: Seq<char>,
    index_uid: Seq<char>,
    source_id: Seq<char>,
    shard_id: ShardId,
    other_shard_id: ShardId,
)
    requires
        is_queue_of(queue_id, index_uid, source_id, shard_id),
        is_queue_of(queue_id, index_uid, source_id, other_shard_id),
    ensures
        shard_id == other_shard_id,
{
    lemma_queue_of_shard(queue_id, index_uid, source_id, shard_id);
    lemma_queue_of_shard(queue_id, index_uid, source_id, other_shard_id);
    let prefix = index_uid + seq!['/'] + source_id + seq!['/'];
    assert(queue_id.skip(prefix.len() as int) =~= decimal(shard_id as nat));
    assert(queue_id.skip(prefix.len() as int) =~= decimal(other_shard_id as nat));
    lemma_decimal_stands_for_its_number(shard_id as nat);
    lemma_decimal_stands_for_its_number(other_shard_id as nat);
}

/// Positions of records are offsets. Nothing comes before the first record but the beginning, and
/// each record but the first comes behind the one before it.
pub proof fn law_positions_are_offsets(position: Position, offset: u64, as_offset: Option<u64>)
    requires
        call_ensures(Position::as_u64, (&position,), as_offset),
    ensures
        position == Position::Offset(offset) <==> as_offset == Some(offset),
        position == Position::Beginning || position == Position::Eof <==> as_offset is None,
        position_before(0) == Position::Beginning,
        position_before((offset + 1) as nat) == Position::Offset(offset),
        offset_after(Position::Offset(offset)) == offset + 1,
        offset_after(Position::Beginning) == 0,
        offset_after(Position::Eof) == 0,
{
}

/// A position made from an offset is the position of the record there.
pub proof fn law_position_from_offset(offset: u64, position: Position)
    requires
        call_ensures(<Position as From<u64>>::from, (offset,), position),
    ensures
        position == Position::Offset(offset),
{
}

/// Where no position is given, it is the beginning.
pub proof fn law_default_position(position: Position)
    requires
        call_ensures(<Position as Default>::default, (), position),
    ensures
        position == Position::Beginning,
{
}

/// A request is for the queue that its fields spell out, from its position on, or from the
/// beginning where it has none.
pub proof fn law_request_is_for_its_fields(
    request: &OpenFetchStreamRequest,
    id: QueueId,
    position: Position,
)
    requires
        call_ensures(OpenFetchStreamRequest::queue_id, (request,), id),
        call_ensures(OpenFetchStreamRequest::from_position_exclusive, (request,), position),
    ensures
        is_queue_of(id@, request.index_uid@, request.source_id@, request.shard_id),
        request.from_position_exclusive is Some ==> position
            == request.from_position_exclusive->0,
        request.from_position_exclusive is None ==> position == Position::Beginning,
{
    lemma_queue_of_shard(id@, request.index_uid@, request.source_id@, request.shard_id);
}

/// A response reaches from one of its positions to the other, each of which is the beginning where
/// it is left out.
pub proof fn law_response_has_its_positions(
    response: &FetchResponseV2,
    from: Position,
    to: Position,
)
    requires
        call_ensures(FetchResponseV2::from_position_exclusive, (response,), from),
        call_ensures(FetchResponseV2::to_position_inclusive, (response,), to),
    ensures
        response.from_position_exclusive is Some ==> from == response.from_position_exclusive->0,
        response.from_position_exclusive is None ==> from == Position::Beginning,
        response.to_position_inclusive is Some ==> to == response.to_position_inclusive->0,
        response.to_position_inclusive is None ==> to == Position::Beginning,
{
}

/// What is said of a request is said of its fields.
pub proof fn law_view_of_request(request: OpenFetchStreamRequest)
    ensures
        request@.client_id == request.client_id@,
        request@.index_uid == request.index_uid@,
        request@.source_id == request.source_id@,
        request@.shard_id == request.shard_id,
        request@.from_position_exclusive == request.from_position_exclusive,
{
}

/// What is said of a response is said of its fields, and of the bytes and the lengths of its batch.
pub proof fn law_view_of_response(response: FetchResponseV2)
    ensures
        response@.index_uid == response.index_uid@,
        response@.source_id == response.source_id@,
        response@.shard_id == response.shard_id,
        response@.from_position_exclusive == response.from_position_exclusive,
        response@.to_position_inclusive == response.to_position_inclusive,
        response@.mrecord_batch is Some <==> response.mrecord_batch is Some,
        response.mrecord_batch matches Some(batch) ==> {
            &&& response@.mrecord_batch->0.mrecord_buffer == bytes_contents(batch.mrecord_buffer)
            &&& response@.mrecord_batch->0.mrecord_lengths == batch.mrecord_lengths@
        },
{
}

/// What is said of a batch is said of its fields.
pub proof fn law_view_of_batch(batch: MRecordBatch, filled: FilledBatch)
    ensures
        batch@.mrecord_buffer == bytes_contents(batch.mrecord_buffer),
        batch@.mrecord_lengths == batch.mrecord_lengths@,
        filled@.mrecord_buffer == bytes_mut_contents(filled.mrecord_buffer),
        filled@.mrecord_lengths == filled.mrecord_lengths@,
        filled@.has_drained_queue == filled.has_drained_queue,
{
}

/// What is said of an error is said of its fields, and tells the kinds of errors apart.
pub proof fn law_view_of_error(error: IngestV2Error, stream_error: FetchStreamError)
    ensures
        match error {
            IngestV2Error::Internal(message) => error@ == IngestV2ErrorView::Internal(message@),
            IngestV2Error::IngesterUnavailable { ingester_id } => error@
                == (IngestV2ErrorView::IngesterUnavailable { ingester_id: ingester_id@ }),
            IngestV2Error::Other { kind, message } => error@ == (IngestV2ErrorView::Other {
                kind: kind@,
                message: message@,
            }),
        },
        stream_error@.index_uid == stream_error.index_uid@,
        stream_error@.source_id == stream_error.source_id@,
        stream_error@.shard_id == stream_error.shard_id,
        stream_error@.ingest_error == stream_error.ingest_error@,
{
}

/// The record that marks the end of a shard has two bytes, a zero and a two, and no other record
/// marks it.
pub proof fn law_eof_record_has_two_bytes(mrecord: &[u8], is_eof: bool)
    requires
        call_ensures(is_eof_mrecord, (mrecord,), is_eof),
    ensures
        is_eof <==> mrecord@.len() == 2 && mrecord@[0] == 0 && mrecord@[1] == 2,
{
    if mrecord@.len() == 2 && mrecord@[0] == 0 && mrecord@[1] == 2 {
        assert(mrecord@ =~= seq![0u8, 2u8]);
    }
}

/// The last record of a batch marks the end of the shard where it has two bytes, and these are the
/// two bytes of the marker.
pub proof fn law_batch_ends_with_eof_bytes(batch: &FilledBatch, is_eof: bool)
    requires
        call_ensures(ends_with_eof, (batch,), is_eof),
        bytes_mut_contents(batch.mrecord_buffer).len() > 0,
        batch.mrecord_lengths@.len() > 0,
        batch.mrecord_lengths@.last() <= bytes_mut_contents(batch.mrecord_buffer).len(),
    ensures
        ({
            let bytes = bytes_mut_contents(batch.mrecord_buffer);
            is_eof <==> batch.mrecord_lengths@.last() == 2 && bytes[bytes.len() - 2] == 0
                && bytes[bytes.len() - 1] == 2
        }),
{
    let bytes = bytes_mut_contents(batch.mrecord_buffer);
    let last = batch@.last_mrecord();
    if last.len() == 2 && bytes[bytes.len() - 2] == 0 && bytes[bytes.len() - 1] == 2 {
        assert(last =~= seq![0u8, 2u8]);
    }
    if is_eof {
        assert(last.len() == 2 && last[0] == 0 && last[1] == 2);
    }
}

/// The bytes of the first `count` records, one behind the other.
pub open spec fn bytes_of_first(mrecords: Seq<&[u8]>, count: int) -> Seq<u8>
    decreases count,
{
    if count <= 0 {
        Seq::empty()
    } else {
        bytes_of_first(mrecords, count - 1) + mrecords[count - 1]@
    }
}

/// The bytes of the first records are those of a prefix of their contents.
proof fn lemma_bytes_of_first(mrecords: Seq<&[u8]>, count: int)
    requires
        0 <= count <= mrecords.len(),
    ensures
        bytes_of_first(mrecords, count) == mrecord_contents(mrecords).take(count).flatten(),
    decreases count,
{
    let contents = mrecord_contents(mrecords);
    if count == 0 {
        assert(contents.take(0).flatten() =~= Seq::empty());
    } else {
        lemma_bytes_of_first(mrecords, count - 1);
        assert(contents.take(count) =~= contents.take(count - 1).push(mrecords[count - 1]@));
        contents.take(count - 1).lemma_flatten_push(mrecords[count - 1]@);
    }
}

/// Of `mrecords`, the first `count` make a batch of `num_bytes` bytes: they fit, or all the bytes
/// are those of the last of them; and a record is left behind only by one that has bytes, and only
/// where it does not fit behind it.
pub open spec fn is_cut_at(mrecords: Seq<&[u8]>, count: int, num_bytes: int) -> bool {
    &&& 0 <= count <= mrecords.len()
    &&& bytes_of_first(mrecords, count).len() <= num_bytes || (count > 0 && bytes_of_first(
        mrecords,
        count - 1,
    ).len() == 0)
    &&& count < mrecords.len() ==> {
        &&& bytes_of_first(mrecords, count).len() > 0
        &&& bytes_of_first(mrecords, count).len() + mrecords[count]@.len() > num_bytes
    }
}

/// A batch cuts the records where they do not fit any more.
pub proof fn lemma_batch_cuts_records(
    mrecords: Seq<&[u8]>,
    num_bytes: nat,
    batch: FilledBatchView,
)
    requires
        is_batch_of(batch, mrecord_contents(mrecords), num_bytes),
    ensures
        ({
            let count = batch.mrecord_lengths.len() as int;
            &&& is_cut_at(mrecords, count, num_bytes as int)
            &&& batch.mrecord_buffer == bytes_of_first(mrecords, count)
            &&& batch.has_drained_queue <==> count == mrecords.len()
            &&& forall|i: int|
                0 <= i < count ==> (#[trigger] batch.mrecord_lengths[i]) as int
                    == mrecords[i]@.len() % 0x1_0000_0000
        }),
{
    let contents = mrecord_contents(mrecords);
    let count = batch.mrecord_lengths.len() as int;
    lemma_bytes_of_first(mrecords, count);
    if count > 0 {
        lemma_bytes_of_first(mrecords, count - 1);
    }
    law_batch_fills_the_capacity(contents, num_bytes, batch);
    if count < mrecords.len() {
        assert(contents[count] == mrecords[count]@);
    }
    assert forall|i: int| 0 <= i < count implies (#[trigger] batch.mrecord_lengths[i]) as int
        == mrecords[i]@.len() % 0x1_0000_0000 by {
        assert(contents.take(count)[i] == mrecords[i]@);
    }
}

/// A batch has the bytes of the first records, one behind the other, and their lengths, each
/// modulo 4 GiB. It is cut where the next record does not fit, and says whether any is left. Its
/// buffer was made for as many bytes as were asked for.
pub proof fn law_batch_is_the_first_records(
    num_bytes: usize,
    mrecords: &[&[u8]],
    batch: FilledBatch,
)
    requires
        call_ensures(fetch_batch, (num_bytes, mrecords), batch),
        num_bytes <= isize::MAX,
    ensures
        bytes_mut_requested_capacity(batch.mrecord_buffer) == num_bytes,
        ({
            let count = batch.mrecord_lengths@.len() as int;
            &&& is_cut_at(mrecords@, count, num_bytes as int)
            &&& bytes_mut_contents(batch.mrecord_buffer) == bytes_of_first(mrecords@, count)
            &&& batch.has_drained_queue <==> count == mrecords@.len()
            &&& forall|i: int|
                0 <= i < count ==> (#[trigger] batch.mrecord_lengths@[i]) as int
                    == mrecords@[i]@.len() % 0x1_0000_0000
        }),
{
    lemma_batch_cuts_records(mrecords@, num_bytes as nat, batch@);
}

/// The same of a batch that is filled in a given buffer.
pub proof fn law_filled_batch_is_the_first_records(
    buffer: BytesMut,
    num_bytes: usize,
    mrecords: &[&[u8]],
    batch: FilledBatch,
)
    requires
        call_ensures(fill_batch, (buffer, num_bytes, mrecords), batch),
        bytes_mut_contents(buffer) == Seq::<u8>::empty(),
        num_bytes <= isize::MAX,
    ensures
        bytes_mut_requested_capacity(batch.mrecord_buffer) == bytes_mut_requested_capacity(buffer),
        ({
            let count = batch.mrecord_lengths@.len() as int;
            &&& is_cut_at(mrecords@, count, num_bytes as int)
            &&& bytes_mut_contents(batch.mrecord_buffer) == bytes_of_first(mrecords@, count)
            &&& batch.has_drained_queue <==> count == mrecords@.len()
            &&& forall|i: int|
                0 <= i < count ==> (#[trigger] batch.mrecord_lengths@[i]) as int
                    == mrecords@[i]@.len() % 0x1_0000_0000
        }),
{
    lemma_batch_cuts_records(mrecords@, num_bytes as nat, batch@);
}

} // verus!

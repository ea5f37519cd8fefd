//! Records of a shard, as they lie in its log, and the batches they are sent in.
use bytes::BytesMut;
use vstd::prelude::*;

use crate::buffer::{as_slice, bytes_mut_contents, bytes_mut_requested_capacity, put};

verus! {

/// First byte of the header of a record: the version of the header.
pub const HEADER_VERSION_V0: u8 = 0;

/// Second byte of the header of a record: the record marks the end of the shard.
pub const EOF_RECORD_TYPE: u8 = 2;

/// The record that marks the end of a shard: a header, and nothing behind it.
pub open spec fn eof_mrecord() -> Seq<u8> {
    seq![HEADER_VERSION_V0, EOF_RECORD_TYPE]
}

/// Returns whether the record marks the end of the shard.
pub fn is_eof_mrecord(mrecord: &[u8]) -> (is_eof: bool)
    ensures
        is_eof == (mrecord@ == eof_mrecord()),
{
    let is_eof = mrecord.len() == 2 && mrecord[0] == HEADER_VERSION_V0 && mrecord[1]
        == EOF_RECORD_TYPE;
    assert(is_eof ==> mrecord@ =~= eof_mrecord());
    is_eof
}

/// The contents of the records that a slice of byte slices holds.
pub open spec fn mrecord_contents(mrecords: Seq<&[u8]>) -> Seq<Seq<u8>> {
    mrecords.map_values(|mrecord: &[u8]| mrecord@)
}

/// The length of a record as a batch states it: in 32 bits, so modulo 4 GiB.
pub open spec fn stated_length(len: nat) -> u32 {
    (len % 0x1_0000_0000) as u32
}

/// The lengths of the records as a batch states them.
pub open spec fn stated_lengths(mrecords: Seq<Seq<u8>>) -> Seq<u32> {
    mrecords.map_values(|mrecord: Seq<u8>| stated_length(mrecord.len()))
}

/// The first `count` records have at most `capacity` bytes together.
pub open spec fn fits(mrecords: Seq<Seq<u8>>, count: int, capacity: nat) -> bool {
    mrecords.take(count).flatten().len() <= capacity
}

/// A batch takes the first `count` records: as many as fit in it together, and where the first
/// record that has bytes is larger than the batch, that record all the same. So nothing is left
/// behind by a batch without bytes.
pub open spec fn is_longest_fit(mrecords: Seq<Seq<u8>>, count: nat, capacity: nat) -> bool {
    &&& count <= mrecords.len()
    &&& fits(mrecords, count as int, capacity) || (count > 0 && mrecords.take(
        count - 1,
    ).flatten().len() == 0)
    &&& forall|longer: int| count < longer <= mrecords.len() ==> !fits(mrecords, longer, capacity)
    &&& mrecords.take(count as int).flatten().len() == 0 ==> count == mrecords.len()
}

/// A batch that has been filled and not been sent yet.
pub struct FilledBatch {
    /// The records of the batch, one behind the other.
    pub mrecord_buffer: BytesMut,
    /// The length of each record, in 32 bits.
    pub mrecord_lengths: Vec<u32>,
    /// Whether every record that was there has been taken.
    pub has_drained_queue: bool,
}

/// What a [`FilledBatch`] holds.
#[verifier::ext_equal]
pub struct FilledBatchView {
    pub mrecord_buffer: Seq<u8>,
    pub mrecord_lengths: Seq<u32>,
    pub has_drained_queue: bool,
}

impl View for FilledBatch {
    type V = FilledBatchView;

    open spec fn view(&self) -> FilledBatchView {
        FilledBatchView {
            mrecord_buffer: bytes_mut_contents(self.mrecord_buffer),
            mrecord_lengths: self.mrecord_lengths@,
            has_drained_queue: self.has_drained_queue,
        }
    }
}

/// The batch that takes up to `capacity` bytes of `mrecords`: as many records from the front as fit
/// together, and a record that is larger than that alone.
pub open spec fn is_batch_of(
    batch: FilledBatchView,
    mrecords: Seq<Seq<u8>>,
    capacity: nat,
) -> bool {
    let count = batch.mrecord_lengths.len();
    &&& is_longest_fit(mrecords, count, capacity)
    &&& batch.mrecord_buffer == mrecords.take(count as int).flatten()
    &&& batch.mrecord_lengths == stated_lengths(mrecords.take(count as int))
    &&& batch.has_drained_queue == (count == mrecords.len())
}

impl FilledBatchView {
    /// A batch that has bytes states the length of its last record, and has that many bytes.
    pub open spec fn wf(self) -> bool {
        self.mrecord_buffer.len() > 0 ==> {
            &&& self.mrecord_lengths.len() > 0
            &&& self.mrecord_lengths.last() <= self.mrecord_buffer.len()
        }
    }

    /// The last record of the batch, as far as its stated length reaches.
    pub open spec fn last_mrecord(self) -> Seq<u8>
        recommends
            self.wf(),
            self.mrecord_buffer.len() > 0,
    {
        self.mrecord_buffer.skip(self.mrecord_buffer.len() - self.mrecord_lengths.last())
    }
}

/// Taking one record more adds its bytes.
proof fn lemma_take_one_more(mrecords: Seq<Seq<u8>>, count: int)
    requires
        0 <= count < mrecords.len(),
    ensures
        mrecords.take(count + 1) == mrecords.take(count).push(mrecords[count]),
        mrecords.take(count + 1).flatten() == mrecords.take(count).flatten() + mrecords[count],
{
    assert(mrecords.take(count + 1) =~= mrecords.take(count).push(mrecords[count]));
    mrecords.take(count).lemma_flatten_push(mrecords[count]);
}

/// A longer prefix has no fewer bytes.
pub proof fn lemma_longer_prefix_is_no_smaller(mrecords: Seq<Seq<u8>>, shorter: int, longer: int)
    requires
        0 <= shorter <= longer <= mrecords.len(),
    ensures
        mrecords.take(shorter).flatten().len() <= mrecords.take(longer).flatten().len(),
    decreases longer - shorter,
{
    if shorter < longer {
        lemma_longer_prefix_is_no_smaller(mrecords, shorter, longer - 1);
        lemma_take_one_more(mrecords, longer - 1);
    }
}

/// Records and a capacity make but one batch: which records are taken, what the batch holds and
/// whether the queue is drained follow from the two.
pub proof fn law_batch_is_unique(
    mrecords: Seq<Seq<u8>>,
    capacity: nat,
    batch: FilledBatchView,
    other: FilledBatchView,
)
    requires
        is_batch_of(batch, mrecords, capacity),
        is_batch_of(other, mrecords, capacity),
    ensures
        batch == other,
{
    let count = batch.mrecord_lengths.len();
    let other_count = other.mrecord_lengths.len();
    if count < other_count {
        assert(!fits(mrecords, other_count as int, capacity));
        lemma_longer_prefix_is_no_smaller(mrecords, count as int, other_count - 1);
    }
    if other_count < count {
        assert(!fits(mrecords, count as int, capacity));
        lemma_longer_prefix_is_no_smaller(mrecords, other_count as int, count - 1);
    }
}

/// A batch has no more bytes than the capacity, unless they are those of a single record. It leaves
/// a record behind only where that record would not have fit, and never leaves one behind without
/// taking another one that has bytes.
pub proof fn law_batch_fills_the_capacity(
    mrecords: Seq<Seq<u8>>,
    capacity: nat,
    batch: FilledBatchView,
)
    requires
        is_batch_of(batch, mrecords, capacity),
    ensures
        batch.mrecord_buffer.len() <= capacity || (batch.mrecord_lengths.len() > 0
            && batch.mrecord_buffer == mrecords[batch.mrecord_lengths.len() - 1]),
        !batch.has_drained_queue ==> {
            &&& batch.mrecord_buffer.len() > 0
            &&& batch.mrecord_buffer.len() + mrecords[batch.mrecord_lengths.len() as int].len()
                > capacity
        },
{
    let count = batch.mrecord_lengths.len() as int;
    if count < mrecords.len() {
        lemma_take_one_more(mrecords, count);
        assert(!fits(mrecords, count + 1, capacity));
    }
    if !fits(mrecords, count, capacity) {
        lemma_take_one_more(mrecords, count - 1);
        assert(batch.mrecord_buffer =~= mrecords[count - 1]);
    }
}

/// A record that is larger than a batch is sent all the same, whole, and with no other record that
/// has bytes: of the records before it, `count` in number, none has any.
pub proof fn law_oversized_record_is_taken_alone(
    mrecords: Seq<Seq<u8>>,
    capacity: nat,
    batch: FilledBatchView,
    count: int,
)
    requires
        is_batch_of(batch, mrecords, capacity),
        0 <= count < mrecords.len(),
        mrecords.take(count).flatten().len() == 0,
        mrecords[count].len() > capacity,
    ensures
        batch.mrecord_buffer == mrecords[count],
        batch.mrecord_lengths.len() == count + 1,
{
    let taken = batch.mrecord_lengths.len() as int;
    lemma_take_one_more(mrecords, count);
    if taken <= count {
        lemma_longer_prefix_is_no_smaller(mrecords, taken, count);
    }
    if taken > count + 1 {
        lemma_longer_prefix_is_no_smaller(mrecords, count + 1, taken - 1);
        lemma_longer_prefix_is_no_smaller(mrecords, count + 1, taken);
    }
    assert(mrecords.take(count).flatten() + mrecords[count] =~= mrecords[count]);
}

/// Records from the front that fit in a batch together are all in it.
pub proof fn law_what_fits_is_taken(
    mrecords: Seq<Seq<u8>>,
    capacity: nat,
    batch: FilledBatchView,
    count: int,
)
    requires
        is_batch_of(batch, mrecords, capacity),
        0 <= count <= mrecords.len(),
        mrecords.take(count).flatten().len() <= capacity,
    ensures
        batch.mrecord_lengths.len() >= count,
{
    assert(fits(mrecords, count, capacity));
}

/// A batch has bytes wherever one of the records has any.
pub proof fn law_batch_of_bytes_has_bytes(
    mrecords: Seq<Seq<u8>>,
    capacity: nat,
    batch: FilledBatchView,
)
    requires
        is_batch_of(batch, mrecords, capacity),
        mrecords.flatten().len() > 0,
    ensures
        batch.mrecord_buffer.len() > 0,
{
    assert(mrecords.take(mrecords.len() as int) =~= mrecords);
}

/// Where no record of the batch is longer than the lengths of a batch can state, the last record
/// of the batch is the last record that was taken.
pub proof fn law_last_mrecord_is_last_taken(
    mrecords: Seq<Seq<u8>>,
    capacity: nat,
    batch: FilledBatchView,
)
    requires
        is_batch_of(batch, mrecords, capacity),
        batch.mrecord_buffer.len() > 0,
        mrecords[batch.mrecord_lengths.len() - 1].len() <= u32::MAX,
    ensures
        batch.last_mrecord() == mrecords[batch.mrecord_lengths.len() - 1],
{
    let count = batch.mrecord_lengths.len() as int;
    lemma_batch_is_wf(mrecords, capacity, batch);
    lemma_take_one_more(mrecords, count - 1);
    assert(batch.mrecord_lengths.last() == mrecords[count - 1].len());
    assert(batch.last_mrecord() =~= mrecords[count - 1]);
}

/// Every batch of records is well-formed.
pub proof fn lemma_batch_is_wf(mrecords: Seq<Seq<u8>>, capacity: nat, batch: FilledBatchView)
    requires
        is_batch_of(batch, mrecords, capacity),
    ensures
        batch.wf(),
{
    let count = batch.mrecord_lengths.len() as int;
    if batch.mrecord_buffer.len() > 0 {
        if count == 0 {
            assert(mrecords.take(0).flatten().len() == 0);
        }
        lemma_take_one_more(mrecords, count - 1);
        assert(stated_lengths(mrecords.take(count)).last() == stated_length(
            mrecords[count - 1].len(),
        ));
    }
}

/// A batch that takes the first `count` records takes as many more as it can.
proof fn lemma_longest_fit_exists(mrecords: Seq<Seq<u8>>, capacity: nat, count: nat) -> (longest:
    nat)
    requires
        count <= mrecords.len(),
        fits(mrecords, count as int, capacity) || (count > 0 && mrecords.take(
            count - 1,
        ).flatten().len() == 0),
    ensures
        is_longest_fit(mrecords, longest, capacity),
    decreases mrecords.len() - count,
{
    let num_bytes = mrecords.take(count as int).flatten().len();
    if count == mrecords.len() {
        count
    } else {
        lemma_take_one_more(mrecords, count as int);
        if num_bytes == 0 || fits(mrecords, count as int + 1, capacity) {
            lemma_longest_fit_exists(mrecords, capacity, count + 1)
        } else {
            assert forall|longer: int| count < longer <= mrecords.len() implies !fits(
                mrecords,
                longer,
                capacity,
            ) by {
                lemma_longer_prefix_is_no_smaller(mrecords, count as int + 1, longer);
            }
            count
        }
    }
}

/// There is a batch of any records.
pub proof fn lemma_batch_exists(mrecords: Seq<Seq<u8>>, capacity: nat) -> (batch: FilledBatchView)
    ensures
        is_batch_of(batch, mrecords, capacity),
{
    assert(mrecords.take(0).flatten().len() == 0);
    let count = lemma_longest_fit_exists(mrecords, capacity, 0);
    FilledBatchView {
        mrecord_buffer: mrecords.take(count as int).flatten(),
        mrecord_lengths: stated_lengths(mrecords.take(count as int)),
        has_drained_queue: count == mrecords.len(),
    }
}

/// Fills a batch with records from the front of `mrecords`, until the next one would exceed
/// `capacity`. A buffer that is still empty takes the next record, however large it is.
pub fn fill_batch(buffer: BytesMut, capacity: usize, mrecords: &[&[u8]]) -> (batch: FilledBatch)
    requires
        bytes_mut_contents(buffer) == Seq::<u8>::empty(),
        capacity <= isize::MAX,
    ensures
        is_batch_of(batch@, mrecord_contents(mrecords@), capacity as nat),
        bytes_mut_requested_capacity(batch.mrecord_buffer) == bytes_mut_requested_capacity(buffer),
{
    let mut mrecord_buffer = buffer;
    let mut mrecord_lengths: Vec<u32> = Vec::new();
    let ghost contents = mrecord_contents(mrecords@);
    let mut count: usize = 0;
    proof {
        assert(contents.take(0).flatten() =~= Seq::<u8>::empty());
        assert(stated_lengths(contents.take(0)) =~= Seq::<u32>::empty());
    }
    while count < mrecords.len()
        invariant
            contents == mrecord_contents(mrecords@),
            capacity <= isize::MAX,
            count <= mrecords@.len(),
            bytes_mut_contents(mrecord_buffer) == contents.take(count as int).flatten(),
            fits(contents, count as int, capacity as nat) || (count > 0 && contents.take(
                count - 1,
            ).flatten().len() == 0),
            mrecord_lengths@ == stated_lengths(contents.take(count as int)),
            bytes_mut_requested_capacity(mrecord_buffer) == bytes_mut_requested_capacity(buffer),
        decreases mrecords@.len() - count,
    {
        let mrecord = mrecords[count];
        proof {
            assert(contents[count as int] == mrecord@);
            lemma_take_one_more(contents, count as int);
        }
        let num_bytes: usize = mrecord_buffer.len();
        if num_bytes > 0 && (num_bytes > capacity || mrecord.len() > capacity - num_bytes) {
            proof {
                assert forall|longer: int| count < longer <= contents.len() implies !fits(
                    contents,
                    longer,
                    capacity as nat,
                ) by {
                    lemma_longer_prefix_is_no_smaller(contents, count + 1, longer);
                }
            }
            return FilledBatch { mrecord_buffer, mrecord_lengths, has_drained_queue: false };
        }
        put(&mut mrecord_buffer, mrecord);
        let mrecord_len: u64 = mrecord.len() as u64;
        assert(mrecord_len as u32 == mrecord_len % 0x1_0000_0000u64) by (bit_vector);
        mrecord_lengths.push(mrecord_len as u32);
        assert(stated_lengths(contents.take(count + 1)) =~= stated_lengths(
            contents.take(count as int),
        ).push(stated_length(mrecord@.len())));
        count = count + 1;
    }
    FilledBatch { mrecord_buffer, mrecord_lengths, has_drained_queue: true }
}

/// Fills a batch of up to `batch_num_bytes` bytes with records from the front of `mrecords`, in a
/// buffer made for as many. A record larger than that makes a batch of its own.
pub fn fetch_batch(batch_num_bytes: usize, mrecords: &[&[u8]]) -> (batch: FilledBatch)
    requires
        batch_num_bytes <= isize::MAX,
    ensures
        is_batch_of(batch@, mrecord_contents(mrecords@), batch_num_bytes as nat),
        bytes_mut_requested_capacity(batch.mrecord_buffer) == batch_num_bytes,
{
    let mrecord_buffer = BytesMut::with_capacity(batch_num_bytes);
    fill_batch(mrecord_buffer, batch_num_bytes, mrecords)
}

/// Returns whether the last record of the batch marks the end of the shard.
pub fn ends_with_eof(batch: &FilledBatch) -> (is_eof: bool)
    requires
        batch@.wf(),
        batch@.mrecord_buffer.len() > 0,
    ensures
        is_eof == (batch@.last_mrecord() == eof_mrecord()),
{
    let last_mrecord_len: usize = batch.mrecord_lengths[batch.mrecord_lengths.len() - 1] as usize;
    let mrecord_buffer = as_slice(&batch.mrecord_buffer);
    let start: usize = mrecord_buffer.len() - last_mrecord_len;
    let last_mrecord = vstd::slice::slice_subrange(mrecord_buffer, start, mrecord_buffer.len());
    is_eof_mrecord(last_mrecord)
}

} // verus!

//! What the consumer of a fetch stream, the ingesters and the streams between them exchange.
use bytes::Bytes;
use vstd::prelude::*;

use crate::buffer::bytes_contents;
use crate::position::Position;
use crate::queue_id::{
    queue_id, spec_queue_id, ClientId, IndexUid, NodeId, QueueId, ShardId, SourceId,
};

verus! {

/// Why a request could not be served.
#[derive(Debug, PartialEq, Eq)]
pub enum IngestV2Error {
    /// Something went wrong within the service that was asked.
    Internal(String),
    /// The ingester is not part of the pool.
    IngesterUnavailable { ingester_id: NodeId },
    /// Any other error of a service: what kind of error it is, and what the service says of it.
    /// It is passed on as it is.
    Other { kind: String, message: String },
}

pub type IngestV2Result<T> = Result<T, IngestV2Error>;

/// What an [`IngestV2Error`] says.
#[verifier::ext_equal]
pub enum IngestV2ErrorView {
    Internal(Seq<char>),
    IngesterUnavailable { ingester_id: Seq<char> },
    Other { kind: Seq<char>, message: Seq<char> },
}

impl View for IngestV2Error {
    type V = IngestV2ErrorView;

    open spec fn view(&self) -> IngestV2ErrorView {
        match self {
            IngestV2Error::Internal(message) => IngestV2ErrorView::Internal(message@),
            IngestV2Error::IngesterUnavailable { ingester_id } =>
                IngestV2ErrorView::IngesterUnavailable { ingester_id: ingester_id@ },
            IngestV2Error::Other { kind, message } => IngestV2ErrorView::Other {
                kind: kind@,
                message: message@,
            },
        }
    }
}

/// Asks an ingester for the records of a shard that follow a position.
#[derive(Debug)]
pub struct OpenFetchStreamRequest {
    pub client_id: ClientId,
    pub index_uid: IndexUid,
    pub source_id: SourceId,
    pub shard_id: ShardId,
    /// `None` stands for the beginning of the log.
    pub from_position_exclusive: Option<Position>,
}

/// What an [`OpenFetchStreamRequest`] says.
#[verifier::ext_equal]
pub struct OpenFetchStreamRequestView {
    pub client_id: Seq<char>,
    pub index_uid: Seq<char>,
    pub source_id: Seq<char>,
    pub shard_id: ShardId,
    pub from_position_exclusive: Option<Position>,
}

impl View for OpenFetchStreamRequest {
    type V = OpenFetchStreamRequestView;

    open spec fn view(&self) -> OpenFetchStreamRequestView {
        OpenFetchStreamRequestView {
            client_id: self.client_id@,
            index_uid: self.index_uid@,
            source_id: self.source_id@,
            shard_id: self.shard_id,
            from_position_exclusive: self.from_position_exclusive,
        }
    }
}

/// A position that may be left out, and then stands for the beginning of the log.
pub open spec fn position_or_beginning(position_opt: Option<Position>) -> Position {
    match position_opt {
        Some(position) => position,
        None => Position::Beginning,
    }
}

/// Returns the position, or the beginning of the log where it is left out.
fn or_beginning(position_opt: &Option<Position>) -> (position: Position)
    ensures
        position == position_or_beginning(*position_opt),
{
    match position_opt {
        Some(position) => *position,
        None => Position::default(),
    }
}

impl OpenFetchStreamRequestView {
    pub open spec fn queue_id(self) -> Seq<char> {
        spec_queue_id(self.index_uid, self.source_id, self.shard_id)
    }

    pub open spec fn from_position_exclusive(self) -> Position {
        position_or_beginning(self.from_position_exclusive)
    }
}

impl OpenFetchStreamRequest {
    /// Returns the identifier of the queue of the shard.
    pub fn queue_id(&self) -> (id: QueueId)
        ensures
            id@ == self@.queue_id(),
    {
        queue_id(self.index_uid.as_str(), self.source_id.as_str(), self.shard_id)
    }

    /// Returns the position that the records follow.
    pub fn from_position_exclusive(&self) -> (position: Position)
        ensures
            position == self@.from_position_exclusive(),
    {
        or_beginning(&self.from_position_exclusive)
    }
}

/// Records of a shard, one behind the other.
#[derive(Debug)]
pub struct MRecordBatch {
    pub mrecord_buffer: Bytes,
    /// The length of each record, in 32 bits.
    pub mrecord_lengths: Vec<u32>,
}

/// What a [`MRecordBatch`] holds.
#[verifier::ext_equal]
pub struct MRecordBatchView {
    pub mrecord_buffer: Seq<u8>,
    pub mrecord_lengths: Seq<u32>,
}

impl View for MRecordBatch {
    type V = MRecordBatchView;

    open spec fn view(&self) -> MRecordBatchView {
        MRecordBatchView {
            mrecord_buffer: bytes_contents(self.mrecord_buffer),
            mrecord_lengths: self.mrecord_lengths@,
        }
    }
}

/// The records of a shard that follow one position, up to another.
#[derive(Debug)]
pub struct FetchResponseV2 {
    pub index_uid: IndexUid,
    pub source_id: SourceId,
    pub shard_id: ShardId,
    pub mrecord_batch: Option<MRecordBatch>,
    /// `None` stands for the beginning of the log.
    pub from_position_exclusive: Option<Position>,
    /// `None` stands for the beginning of the log.
    pub to_position_inclusive: Option<Position>,
}

/// What a [`FetchResponseV2`] says.
#[verifier::ext_equal]
pub struct FetchResponseV2View {
    pub index_uid: Seq<char>,
    pub source_id: Seq<char>,
    pub shard_id: ShardId,
    pub mrecord_batch: Option<MRecordBatchView>,
    pub from_position_exclusive: Option<Position>,
    pub to_position_inclusive: Option<Position>,
}

impl View for FetchResponseV2 {
    type V = FetchResponseV2View;

    open spec fn view(&self) -> FetchResponseV2View {
        FetchResponseV2View {
            index_uid: self.index_uid@,
            source_id: self.source_id@,
            shard_id: self.shard_id,
            mrecord_batch: match self.mrecord_batch {
                Some(mrecord_batch) => Some(mrecord_batch@),
                None => None,
            },
            from_position_exclusive: self.from_position_exclusive,
            to_position_inclusive: self.to_position_inclusive,
        }
    }
}

impl FetchResponseV2View {
    pub open spec fn from_position_exclusive(self) -> Position {
        position_or_beginning(self.from_position_exclusive)
    }

    pub open spec fn to_position_inclusive(self) -> Position {
        position_or_beginning(self.to_position_inclusive)
    }
}

impl FetchResponseV2 {
    /// Returns the position that the records follow.
    pub fn from_position_exclusive(&self) -> (position: Position)
        ensures
            position == self@.from_position_exclusive(),
    {
        or_beginning(&self.from_position_exclusive)
    }

    /// Returns the position of the last record, or the end of the shard.
    pub fn to_position_inclusive(&self) -> (position: Position)
        ensures
            position == self@.to_position_inclusive(),
    {
        or_beginning(&self.to_position_inclusive)
    }
}

/// Tells the consumer of a shard why its stream has been closed.
#[derive(Debug)]
pub struct FetchStreamError {
    pub index_uid: IndexUid,
    pub source_id: SourceId,
    pub shard_id: ShardId,
    pub ingest_error: IngestV2Error,
}

/// What a [`FetchStreamError`] says.
#[verifier::ext_equal]
pub struct FetchStreamErrorView {
    pub index_uid: Seq<char>,
    pub source_id: Seq<char>,
    pub shard_id: ShardId,
    pub ingest_error: IngestV2ErrorView,
}

impl View for FetchStreamError {
    type V = FetchStreamErrorView;

    open spec fn view(&self) -> FetchStreamErrorView {
        FetchStreamErrorView {
            index_uid: self.index_uid@,
            source_id: self.source_id@,
            shard_id: self.shard_id,
            ingest_error: self.ingest_error@,
        }
    }
}

} // verus!

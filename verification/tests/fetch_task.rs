//! The task that pushes the records of a shard into a channel.
use fetch_stream::fetch_task::{FetchStreamTask, FetchTaskAction};
use fetch_stream::message::{FetchResponseV2, IngestV2Error, OpenFetchStreamRequest};
use fetch_stream::position::Position;

fn open_fetch_stream_request(from_position_exclusive: Option<Position>) -> OpenFetchStreamRequest {
    OpenFetchStreamRequest {
        client_id: "test-client".to_string(),
        index_uid: "test-index:0".to_string(),
        source_id: "test-source".to_string(),
        shard_id: 1,
        from_position_exclusive,
    }
}

fn assert_reads(action: FetchTaskAction, expected_position: u64) {
    match action {
        FetchTaskAction::ReadMRecords {
            from_position_inclusive,
        } => assert_eq!(from_position_inclusive, expected_position),
        _ => panic!("the task should read"),
    }
}

fn assert_waits(action: FetchTaskAction) {
    assert!(matches!(action, FetchTaskAction::AwaitNewRecords));
}

fn assert_stops_early(action: FetchTaskAction) {
    match action {
        FetchTaskAction::Stop(Some(ingest_error)) => assert_eq!(
            ingest_error,
            IngestV2Error::Internal("fetch stream ended before reaching end of shard".to_string())
        ),
        _ => panic!("the task should stop with an error"),
    }
}

fn sent_response(action: FetchTaskAction) -> FetchResponseV2 {
    match action {
        FetchTaskAction::SendResponse(fetch_response) => fetch_response,
        _ => panic!("the task should send a response"),
    }
}

fn assert_batch(fetch_response: &FetchResponseV2, lengths: &[u32], buffer: &[u8]) {
    let mrecord_batch = fetch_response.mrecord_batch.as_ref().unwrap();
    assert_eq!(mrecord_batch.mrecord_lengths, lengths);
    assert_eq!(&mrecord_batch.mrecord_buffer[..], buffer);
}

#[test]
fn test_fetch_task_happy_path() {
    let mut task = FetchStreamTask::spawn(open_fetch_stream_request(None), 1024);
    assert_eq!(task.queue_id(), "test-index:0/test-source/1");
    assert_eq!(task.client_id(), "test-client");
    assert_reads(task.next_action(), 0);

    let fetch_response = sent_response(task.on_mrecords(&[b"\0\0test-doc-foo"]));
    assert_eq!(fetch_response.index_uid, "test-index:0");
    assert_eq!(fetch_response.source_id, "test-source");
    assert_eq!(fetch_response.shard_id, 1);
    assert_eq!(
        fetch_response.from_position_exclusive(),
        Position::Beginning
    );
    assert_eq!(
        fetch_response.to_position_inclusive(),
        Position::from(0u64)
    );
    assert_batch(&fetch_response, &[14], b"\0\0test-doc-foo");

    // The queue is drained: no response before there is a notification.
    assert_waits(task.on_response_sent(true));
    assert_reads(task.on_new_records(false), 1);

    let fetch_response = sent_response(task.on_mrecords(&[b"\0\0test-doc-bar"]));
    assert_eq!(
        fetch_response.from_position_exclusive(),
        Position::from(0u64)
    );
    assert_eq!(
        fetch_response.to_position_inclusive(),
        Position::from(1u64)
    );
    assert_batch(&fetch_response, &[14], b"\0\0test-doc-bar");
    assert_waits(task.on_response_sent(true));

    // Trigger a spurious notification.
    assert_reads(task.on_new_records(false), 2);
    assert_waits(task.on_mrecords(&[]));

    assert_reads(task.on_new_records(false), 2);
    let mrecords: [&[u8]; 3] = [b"\0\0test-doc-baz", b"\0\0test-doc-qux", b"\0\x02"];
    let fetch_response = sent_response(task.on_mrecords(&mrecords));
    assert_eq!(
        fetch_response.from_position_exclusive(),
        Position::from(1u64)
    );
    assert_eq!(fetch_response.to_position_inclusive(), Position::Eof);
    assert_batch(
        &fetch_response,
        &[14, 14, 2],
        b"\0\0test-doc-baz\0\0test-doc-qux\0\x02",
    );
    assert!(matches!(
        task.on_response_sent(true),
        FetchTaskAction::Stop(None)
    ));
}

#[test]
fn test_fetch_task_from_position_exclusive() {
    let request = open_fetch_stream_request(Some(Position::from(0u64)));
    let mut task = FetchStreamTask::spawn(request, 1024);

    // The record at position 0, which has been fetched before, is never read.
    assert_reads(task.next_action(), 1);
    assert_waits(task.on_mrecords(&[]));
    assert_reads(task.on_new_records(false), 1);
    assert_waits(task.on_mrecords(&[]));
    assert_reads(task.on_new_records(false), 1);

    let fetch_response = sent_response(task.on_mrecords(&[b"\0\0test-doc-bar"]));
    assert_eq!(fetch_response.index_uid, "test-index:0");
    assert_eq!(fetch_response.source_id, "test-source");
    assert_eq!(fetch_response.shard_id, 1);
    assert_eq!(
        fetch_response.from_position_exclusive(),
        Position::from(0u64)
    );
    assert_eq!(
        fetch_response.to_position_inclusive(),
        Position::from(1u64)
    );
    assert_batch(&fetch_response, &[14], b"\0\0test-doc-bar");
}

#[test]
fn test_fetch_task_error() {
    let task = FetchStreamTask::spawn(open_fetch_stream_request(None), 1024);
    assert_reads(task.next_action(), 0);

    // The queue does not exist.
    match task.on_queue_dropped() {
        FetchTaskAction::Stop(Some(ingest_error)) => {
            assert!(matches!(ingest_error, IngestV2Error::Internal(_)))
        }
        _ => panic!("the task should stop with an error"),
    }
}

#[test]
fn test_fetch_task_batch_num_bytes() {
    let mut task = FetchStreamTask::spawn(open_fetch_stream_request(None), 30);
    assert_reads(task.next_action(), 0);

    let mrecords: [&[u8]; 3] = [b"test-doc-foo", b"test-doc-bar", b"test-doc-baz"];
    let fetch_response = sent_response(task.on_mrecords(&mrecords));
    assert_batch(&fetch_response, &[12, 12], b"test-doc-footest-doc-bar");

    // Not all of the records fit: the task reads on without waiting.
    assert_reads(task.on_response_sent(true), 2);
    let fetch_response = sent_response(task.on_mrecords(&mrecords[2..]));
    assert_batch(&fetch_response, &[12], b"test-doc-baz");
    assert_waits(task.on_response_sent(true));
}

#[test]
fn task_stops_where_the_shard_or_the_consumer_is_gone() {
    let mut task = FetchStreamTask::spawn(open_fetch_stream_request(None), 1024);
    assert_waits(task.on_mrecords(&[]));
    assert_stops_early(task.on_new_records(true));

    sent_response(task.on_mrecords(&[b"\0\0test-doc-foo"]));
    assert_stops_early(task.on_response_sent(false));

    // The end of the shard has been reached, whether the consumer has learnt of it or not.
    sent_response(task.on_mrecords(&[b"\0\x02"]));
    assert!(matches!(
        task.on_response_sent(false),
        FetchTaskAction::Stop(None)
    ));
}

#[test]
fn eof_record_ends_the_shard_only_as_the_last_record() {
    let mut task = FetchStreamTask::spawn(open_fetch_stream_request(None), 1024);
    let mrecords: [&[u8]; 2] = [b"\0\x02", b"\0\0test-doc-foo"];
    let fetch_response = sent_response(task.on_mrecords(&mrecords));
    assert_eq!(
        fetch_response.to_position_inclusive(),
        Position::from(1u64)
    );
    assert_waits(task.on_response_sent(true));
}

#[test]
fn record_larger_than_a_batch_is_sent_alone() {
    let mut task = FetchStreamTask::spawn(open_fetch_stream_request(None), 4);
    let mrecords: [&[u8]; 3] = [&[7u8; 4096], b"\0\0a", b"\0\x02"];
    let fetch_response = sent_response(task.on_mrecords(&mrecords));
    assert_batch(&fetch_response, &[4096], &[7u8; 4096]);
    assert_eq!(
        fetch_response.from_position_exclusive(),
        Position::Beginning
    );
    assert_eq!(
        fetch_response.to_position_inclusive(),
        Position::from(0u64)
    );

    // The task goes on behind it, to the end of the shard.
    assert_reads(task.on_response_sent(true), 1);
    let fetch_response = sent_response(task.on_mrecords(&mrecords[1..]));
    assert_batch(&fetch_response, &[3], b"\0\0a");
    assert_reads(task.on_response_sent(true), 2);
    let fetch_response = sent_response(task.on_mrecords(&mrecords[2..]));
    assert_eq!(fetch_response.to_position_inclusive(), Position::Eof);
    assert!(matches!(
        task.on_response_sent(true),
        FetchTaskAction::Stop(None)
    ));
}

#[test]
fn empty_records_alone_are_not_sent() {
    let mut task = FetchStreamTask::spawn(open_fetch_stream_request(None), 1024);
    let mrecords: [&[u8]; 2] = [b"", b""];
    assert_waits(task.on_mrecords(&mrecords));
    assert_reads(task.on_new_records(false), 0);

    let mrecords: [&[u8]; 3] = [b"", b"", b"doc"];
    let fetch_response = sent_response(task.on_mrecords(&mrecords));
    assert_batch(&fetch_response, &[0, 0, 3], b"doc");
    assert_eq!(
        fetch_response.to_position_inclusive(),
        Position::from(2u64)
    );
}

#[test]
fn request_for_what_follows_the_end_starts_over() {
    let request = open_fetch_stream_request(Some(Position::Eof));
    assert_reads(FetchStreamTask::spawn(request, 1024).next_action(), 0);
}

/// Streams `log`, which ends with the end of the shard, and returns the bytes and the lengths that
/// are sent.
fn stream_all(log: &[&[u8]], batch_num_bytes: usize) -> (Vec<u8>, Vec<u32>) {
    let mut task = FetchStreamTask::spawn(open_fetch_stream_request(None), batch_num_bytes);
    let mut bytes = Vec::new();
    let mut lengths = Vec::new();
    let mut reached = Position::Beginning;
    let mut action = task.next_action();
    loop {
        action = match action {
            FetchTaskAction::AwaitNewRecords => task.on_new_records(false),
            FetchTaskAction::ReadMRecords {
                from_position_inclusive,
            } => task.on_mrecords(&log[from_position_inclusive as usize..]),
            FetchTaskAction::SendResponse(fetch_response) => {
                assert_eq!(fetch_response.from_position_exclusive(), reached);
                reached = fetch_response.to_position_inclusive();
                let mrecord_batch = fetch_response.mrecord_batch.unwrap();
                bytes.extend_from_slice(&mrecord_batch.mrecord_buffer);
                lengths.extend_from_slice(&mrecord_batch.mrecord_lengths);
                task.on_response_sent(true)
            }
            FetchTaskAction::Stop(error_opt) => {
                assert!(error_opt.is_none());
                assert_eq!(reached, Position::Eof);
                return (bytes, lengths);
            }
        };
    }
}

#[test]
fn responses_carry_the_log_however_it_is_batched() {
    let log: [&[u8]; 5] = [b"\0\0a", b"\0\0bcd", b"", b"\0\0efghij", b"\0\x02"];
    for batch_num_bytes in [0, 1, 4, 8, 9, 11, 30, FetchStreamTask::DEFAULT_BATCH_NUM_BYTES] {
        let (bytes, lengths) = stream_all(&log, batch_num_bytes);
        assert_eq!(bytes, b"\0\0a\0\0bcd\0\0efghij\0\x02");
        assert_eq!(lengths, [3, 5, 0, 8, 2]);
    }
    assert_eq!(FetchStreamTask::DEFAULT_BATCH_NUM_BYTES, 1_048_576);
}

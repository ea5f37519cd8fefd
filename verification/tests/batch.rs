//! Records, batches, positions and queue identifiers.
use bytes::BytesMut;
use fetch_stream::fetch_task::{FetchStreamTask, FetchTaskAction};
use fetch_stream::message::OpenFetchStreamRequest;
use fetch_stream::mrecord::{ends_with_eof, fetch_batch, fill_batch, is_eof_mrecord};
use fetch_stream::position::Position;
use fetch_stream::queue_id::queue_id;

#[test]
fn eof_record_is_told_apart() {
    assert!(is_eof_mrecord(b"\0\x02"));
    assert!(!is_eof_mrecord(b"\0\0"));
    assert!(!is_eof_mrecord(b"\x01\x02"));
    assert!(!is_eof_mrecord(b"\0\x02a"));
    assert!(!is_eof_mrecord(b"\0"));
    assert!(!is_eof_mrecord(b""));
}

#[test]
fn batch_takes_records_up_to_the_capacity() {
    let mrecords: [&[u8]; 4] = [b"ab", b"cde", b"f", b"g"];
    let expected: [(usize, &[u8], &[u32], bool); 8] = [
        (0, b"ab", &[2], false),
        (1, b"ab", &[2], false),
        (2, b"ab", &[2], false),
        (4, b"ab", &[2], false),
        (5, b"abcde", &[2, 3], false),
        (6, b"abcdef", &[2, 3, 1], false),
        (7, b"abcdefg", &[2, 3, 1, 1], true),
        (100, b"abcdefg", &[2, 3, 1, 1], true),
    ];
    for (capacity, buffer, lengths, has_drained_queue) in expected {
        let batch = fill_batch(BytesMut::new(), capacity, &mrecords);
        assert_eq!(&batch.mrecord_buffer[..], buffer);
        assert_eq!(batch.mrecord_lengths, lengths);
        assert_eq!(batch.has_drained_queue, has_drained_queue);
    }
}

#[test]
fn record_that_does_not_fit_ends_the_batch() {
    let mrecords: [&[u8]; 3] = [b"ab", b"cdefgh", b"i"];
    let batch = fill_batch(BytesMut::new(), 4, &mrecords);
    assert_eq!(&batch.mrecord_buffer[..], b"ab");
    assert_eq!(batch.mrecord_lengths, [2]);
    assert!(!batch.has_drained_queue);
}

#[test]
fn record_larger_than_the_capacity_is_taken_alone() {
    let mrecords: [&[u8]; 4] = [b"", b"cdefgh", b"", b"i"];
    for capacity in [0, 1, 5] {
        let batch = fill_batch(BytesMut::new(), capacity, &mrecords);
        assert_eq!(&batch.mrecord_buffer[..], b"cdefgh");
        assert_eq!(batch.mrecord_lengths, [0, 6]);
        assert!(!batch.has_drained_queue);
    }
    let batch = fill_batch(BytesMut::new(), 6, &mrecords);
    assert_eq!(&batch.mrecord_buffer[..], b"cdefgh");
    assert_eq!(batch.mrecord_lengths, [0, 6, 0]);

    let batch = fill_batch(BytesMut::new(), 5, &mrecords[1..2]);
    assert_eq!(batch.mrecord_lengths, [6]);
    assert!(batch.has_drained_queue);
}

#[test]
fn fetched_batch_is_limited_by_the_number_of_bytes() {
    let mrecords: [&[u8]; 3] = [&[1u8; 10], &[2u8; 10], &[3u8; 4096]];
    let expected: [(usize, &[u32]); 6] = [
        (0, &[10]),
        (19, &[10]),
        (20, &[10, 10]),
        (4115, &[10, 10]),
        (4116, &[10, 10, 4096]),
        (1 << 20, &[10, 10, 4096]),
    ];
    for (batch_num_bytes, lengths) in expected {
        let batch = fetch_batch(batch_num_bytes, &mrecords);
        assert_eq!(batch.mrecord_lengths, lengths);
        assert_eq!(batch.has_drained_queue, lengths.len() == 3);
        let num_bytes: u32 = lengths.iter().sum();
        assert_eq!(batch.mrecord_buffer.len(), num_bytes as usize);
    }
}

#[test]
fn batch_ends_with_eof() {
    let mrecords: [&[u8]; 2] = [b"\0\0a", b"\0\x02"];
    assert!(ends_with_eof(&fetch_batch(1024, &mrecords)));
    assert!(!ends_with_eof(&fetch_batch(1024, &mrecords[..1])));
    // The bytes of the marker at the end of a longer record are no marker.
    assert!(!ends_with_eof(&fetch_batch(1024, &[b"\0\0\0\x02"])));
}

#[test]
fn positions() {
    assert_eq!(Position::default(), Position::Beginning);
    assert_eq!(Position::from(3u64), Position::Offset(3));
    assert_eq!(Position::from(3u64).as_u64(), Some(3));
    assert_eq!(Position::Beginning.as_u64(), None);
    assert_eq!(Position::Eof.as_u64(), None);
}

#[test]
fn queue_ids() {
    assert_eq!(
        queue_id("test-index:0", "test-source", 1),
        "test-index:0/test-source/1"
    );
    assert_eq!(queue_id("i", "s", 0), "i/s/0");
    assert_eq!(queue_id("i", "s", 10), "i/s/10");
    assert_eq!(queue_id("i", "s", 1234567890), "i/s/1234567890");
    assert_eq!(
        queue_id("i", "s", u64::MAX),
        format!("i/s/{}", u64::MAX)
    );
    assert_ne!(queue_id("i", "s", 1), queue_id("i", "s", 11));
    // A slash in a source makes the identifier ambiguous.
    assert_eq!(queue_id("i/s", "t", 1), queue_id("i", "s/t", 1));
}

#[test]
fn reopened_stream_goes_on_behind_the_response() {
    let request = |from_position_exclusive| OpenFetchStreamRequest {
        client_id: "test-client".to_string(),
        index_uid: "test-index:0".to_string(),
        source_id: "test-source".to_string(),
        shard_id: 1,
        from_position_exclusive,
    };
    let mut task = FetchStreamTask::spawn(request(None), 1024);
    let mrecords: [&[u8]; 3] = [b"\0\0a", b"\0\0b", b"\0\0c"];
    let FetchTaskAction::SendResponse(fetch_response) = task.on_mrecords(&mrecords) else {
        panic!("the task should send a response");
    };
    let reopened = FetchStreamTask::spawn(request(fetch_response.to_position_inclusive), 1024);
    assert!(matches!(
        reopened.next_action(),
        FetchTaskAction::ReadMRecords {
            from_position_inclusive: 3
        }
    ));
}

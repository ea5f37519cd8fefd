//! Streams that fail over to replicas and are retried.
use std::collections::VecDeque;

use fetch_stream::fault_tolerant::{FaultTolerantFetchStream, FetchStreamAction};
use fetch_stream::fetch_task::{FetchStreamTask, FetchTaskAction};
use fetch_stream::ingester_selection::{order_ingesters, select_preferred_and_failover_ingesters};
use fetch_stream::message::{
    FetchResponseV2, FetchStreamError, IngestV2Error, IngestV2Result, OpenFetchStreamRequest,
};
use fetch_stream::multi_fetch::MultiFetchStream;
use fetch_stream::position::Position;
use fetch_stream::retrying::{RetryAction, RetryParams, RetryingFetchStream};

type ServiceStream = VecDeque<IngestV2Result<FetchResponseV2>>;

/// An ingester that expects to be asked for these positions, in this order.
struct MockIngester {
    ingester_id: &'static str,
    expected: VecDeque<(Position, IngestV2Result<ServiceStream>)>,
}

impl MockIngester {
    fn new(ingester_id: &'static str) -> Self {
        MockIngester {
            ingester_id,
            expected: VecDeque::new(),
        }
    }

    fn expect(mut self, position: Position, result: IngestV2Result<ServiceStream>) -> Self {
        self.expected.push_back((position, result));
        self
    }

    fn open_fetch_stream(&mut self, request: OpenFetchStreamRequest) -> IngestV2Result<ServiceStream> {
        let (position, result) = self.expected.pop_front().unwrap();
        assert_eq!(request.client_id, "test-client");
        assert_eq!(request.index_uid, "test-index:0");
        assert_eq!(request.source_id, "test-source");
        assert_eq!(request.shard_id, 1);
        assert_eq!(request.from_position_exclusive(), position);
        result
    }
}

struct Consumer {
    received: VecDeque<Result<FetchResponseV2, FetchStreamError>>,
    /// How many responses are received before the consumer goes away.
    patience: usize,
}

impl Consumer {
    fn new(patience: usize) -> Self {
        Consumer {
            received: VecDeque::new(),
            patience,
        }
    }

    fn send(&mut self, result: Result<FetchResponseV2, FetchStreamError>) -> bool {
        if self.received.len() == self.patience {
            return false;
        }
        self.received.push_back(result);
        true
    }

    fn assert_response(&mut self, from: Position, to: Position) {
        let fetch_response = self.received.pop_front().unwrap().unwrap();
        assert_eq!(fetch_response.from_position_exclusive(), from);
        assert_eq!(fetch_response.to_position_inclusive(), to);
    }

    fn assert_error(&mut self, expected: IngestV2Error) {
        let fetch_stream_error = self.received.pop_front().unwrap().unwrap_err();
        assert_eq!(fetch_stream_error.index_uid, "test-index:0");
        assert_eq!(fetch_stream_error.source_id, "test-source");
        assert_eq!(fetch_stream_error.shard_id, 1);
        assert_eq!(fetch_stream_error.ingest_error, expected);
    }

    fn assert_end(&self) {
        assert!(self.received.is_empty());
    }
}

fn fetch_response(from: Position, to: Position) -> IngestV2Result<FetchResponseV2> {
    Ok(FetchResponseV2 {
        index_uid: "test-index:0".into(),
        source_id: "test-source".into(),
        shard_id: 1,
        mrecord_batch: None,
        from_position_exclusive: Some(from),
        to_position_inclusive: Some(to),
    })
}

fn internal(message: &str) -> IngestV2Error {
    IngestV2Error::Internal(message.to_string())
}

fn unavailable(ingester_id: &str) -> IngestV2Error {
    IngestV2Error::IngesterUnavailable {
        ingester_id: ingester_id.to_string(),
    }
}

fn at(offset: u64) -> Position {
    Position::from(offset)
}

fn stream_from(position: Position, ingester_ids: &[&str]) -> FaultTolerantFetchStream {
    FaultTolerantFetchStream::new(
        "test-client".to_string(),
        "test-index:0".to_string(),
        "test-source".to_string(),
        1,
        position,
        ingester_ids.iter().map(|id| id.to_string()).collect(),
    )
}

/// Runs an attempt and returns it as it was closed.
fn fault_tolerant_fetch_stream(
    mut stream: FaultTolerantFetchStream,
    pool: &mut [MockIngester],
    consumer: &mut Consumer,
) -> FaultTolerantFetchStream {
    let mut current = 0;
    let mut service_stream = ServiceStream::new();
    let mut action = stream.start();
    loop {
        action = match action {
            FetchStreamAction::LookUpIngester { ingester_id } => {
                let found = pool.iter().position(|it| it.ingester_id == ingester_id);
                current = found.unwrap_or(0);
                stream.on_ingester_looked_up(found.is_some())
            }
            FetchStreamAction::OpenFetchStream(request) => {
                match pool[current].open_fetch_stream(request) {
                    Ok(opened) => {
                        service_stream = opened;
                        stream.on_stream_opened(Ok(()))
                    }
                    Err(ingest_error) => stream.on_stream_opened(Err(ingest_error)),
                }
            }
            FetchStreamAction::AwaitResponse => stream.on_response(service_stream.pop_front()),
            FetchStreamAction::SendResponse(fetch_response) => {
                let delivered = consumer.send(Ok(fetch_response));
                stream.on_response_sent(delivered)
            }
            FetchStreamAction::Close(error_opt) => {
                if let Some(error) = error_opt {
                    consumer.send(Err(error));
                }
                return stream;
            }
        };
    }
}

/// Runs all attempts and returns the delays, by the number of attempts before them.
fn retrying_fetch_stream(
    mut stream: RetryingFetchStream,
    pool: &mut [MockIngester],
    consumer: &mut Consumer,
) -> Vec<usize> {
    let mut delays = Vec::new();
    let mut action = stream.next_attempt();
    loop {
        action = match action {
            RetryAction::Attempt(attempt) => {
                let attempt = fault_tolerant_fetch_stream(attempt, pool, consumer);
                stream.on_attempt_finished(attempt)
            }
            RetryAction::Sleep { num_attempts } => {
                delays.push(num_attempts);
                stream.next_attempt()
            }
            RetryAction::Finish => return delays,
        };
    }
}

#[test]
fn test_select_preferred_and_failover_ingesters() {
    let self_node_id = "test-ingester-0".to_string();

    let (preferred, failover) =
        select_preferred_and_failover_ingesters(&self_node_id, "test-ingester-0".into(), None);
    assert_eq!(preferred, "test-ingester-0");
    assert!(failover.is_none());

    let (preferred, failover) = select_preferred_and_failover_ingesters(
        &self_node_id,
        "test-ingester-0".into(),
        Some("test-ingester-1".into()),
    );
    assert_eq!(preferred, "test-ingester-0");
    assert_eq!(failover.unwrap(), "test-ingester-1");

    let (preferred, failover) = select_preferred_and_failover_ingesters(
        &self_node_id,
        "test-ingester-1".into(),
        Some("test-ingester-0".into()),
    );
    assert_eq!(preferred, "test-ingester-0");
    assert_eq!(failover.unwrap(), "test-ingester-1");
}

#[test]
fn remote_ingesters_are_selected_by_chance() {
    let self_node_id = "test-ingester-0".to_string();
    let mut leader_first = 0;
    for _ in 0..1000 {
        let (preferred, failover) = select_preferred_and_failover_ingesters(
            &self_node_id,
            "test-ingester-1".into(),
            Some("test-ingester-2".into()),
        );
        if preferred == "test-ingester-1" {
            assert_eq!(failover.unwrap(), "test-ingester-2");
            leader_first += 1;
        } else {
            assert_eq!(preferred, "test-ingester-2");
            assert_eq!(failover.unwrap(), "test-ingester-1");
        }
    }
    assert!(0 < leader_first && leader_first < 1000);

    let (preferred, failover) = order_ingesters("leader".into(), "follower".into(), true);
    assert_eq!((preferred.as_str(), failover.as_deref()), ("leader", Some("follower")));
    let (preferred, failover) = order_ingesters("leader".into(), "follower".into(), false);
    assert_eq!((preferred.as_str(), failover.as_deref()), ("follower", Some("leader")));

    // A single replica is streamed from wherever it is.
    let (preferred, failover) =
        select_preferred_and_failover_ingesters(&self_node_id, "test-ingester-1".into(), None);
    assert_eq!(preferred, "test-ingester-1");
    assert!(failover.is_none());
}

#[test]
fn test_fault_tolerant_fetch_stream_ingester_unavailable_failover() {
    let mut pool = [MockIngester::new("test-ingester-1").expect(
        at(0),
        Ok(VecDeque::from([
            fetch_response(at(0), at(1)),
            fetch_response(at(1), Position::Eof),
        ])),
    )];
    let mut consumer = Consumer::new(5);
    let stream = stream_from(at(0), &["test-ingester-0", "test-ingester-1"]);
    let closed = fault_tolerant_fetch_stream(stream, &mut pool, &mut consumer);

    consumer.assert_response(at(0), at(1));
    consumer.assert_response(at(1), Position::Eof);
    consumer.assert_end();
    assert_eq!(closed.from_position_exclusive(), Position::Eof);
}

#[test]
fn test_fault_tolerant_fetch_stream_open_fetch_stream_error_failover() {
    let mut pool = [
        MockIngester::new("test-ingester-0")
            .expect(at(0), Err(internal("open fetch stream error"))),
        MockIngester::new("test-ingester-1").expect(
            at(0),
            Ok(VecDeque::from([
                fetch_response(at(0), at(1)),
                fetch_response(at(1), Position::Eof),
            ])),
        ),
    ];
    let mut consumer = Consumer::new(5);
    let stream = stream_from(at(0), &["test-ingester-0", "test-ingester-1"]);
    fault_tolerant_fetch_stream(stream, &mut pool, &mut consumer);

    consumer.assert_response(at(0), at(1));
    consumer.assert_response(at(1), Position::Eof);
    consumer.assert_end();
}

#[test]
fn test_fault_tolerant_fetch_stream_error_failover() {
    let mut pool = [
        MockIngester::new("test-ingester-0").expect(
            at(0),
            Ok(VecDeque::from([
                fetch_response(at(0), at(1)),
                Err(internal("fetch stream error")),
            ])),
        ),
        MockIngester::new("test-ingester-1").expect(
            at(1),
            Ok(VecDeque::from([fetch_response(at(1), Position::Eof)])),
        ),
    ];
    let mut consumer = Consumer::new(5);
    let stream = stream_from(at(0), &["test-ingester-0", "test-ingester-1"]);
    fault_tolerant_fetch_stream(stream, &mut pool, &mut consumer);

    consumer.assert_response(at(0), at(1));
    consumer.assert_response(at(1), Position::Eof);
    consumer.assert_end();
}

#[test]
fn error_of_the_last_ingester_reaches_the_consumer() {
    let mut consumer = Consumer::new(5);
    let stream = stream_from(at(0), &["test-ingester-0", "test-ingester-1"]);
    let closed = fault_tolerant_fetch_stream(stream, &mut [], &mut consumer);
    consumer.assert_error(unavailable("test-ingester-1"));
    consumer.assert_end();
    assert_eq!(closed.from_position_exclusive(), at(0));

    let mut pool = [MockIngester::new("test-ingester-0").expect(at(0), Err(internal("refused")))];
    let stream = stream_from(at(0), &["test-ingester-0"]);
    fault_tolerant_fetch_stream(stream, &mut pool, &mut consumer);
    consumer.assert_error(internal("refused"));
    consumer.assert_end();

    let mut pool = [MockIngester::new("test-ingester-0").expect(
        at(0),
        Ok(VecDeque::from([
            fetch_response(at(0), at(4)),
            Err(internal("broken")),
        ])),
    )];
    let stream = stream_from(at(0), &["test-ingester-0"]);
    let closed = fault_tolerant_fetch_stream(stream, &mut pool, &mut consumer);
    consumer.assert_response(at(0), at(4));
    consumer.assert_error(internal("broken"));
    consumer.assert_end();
    assert_eq!(closed.from_position_exclusive(), at(4));
}

#[test]
fn error_that_is_not_known_is_passed_on() {
    let too_many_requests = || IngestV2Error::Other {
        kind: "too-many-requests".to_string(),
        message: "try again later".to_string(),
    };
    let mut consumer = Consumer::new(5);
    let mut pool = [MockIngester::new("test-ingester-0").expect(at(0), Err(too_many_requests()))];
    let stream = stream_from(at(0), &["test-ingester-0"]);
    assert!(stream.has_ingester());
    fault_tolerant_fetch_stream(stream, &mut pool, &mut consumer);
    consumer.assert_error(too_many_requests());
    consumer.assert_end();
}

#[test]
fn stream_that_ends_leads_to_the_next_ingester() {
    let mut pool = [
        MockIngester::new("test-ingester-0").expect(
            Position::Beginning,
            Ok(VecDeque::from([fetch_response(Position::Beginning, at(2))])),
        ),
        MockIngester::new("test-ingester-1").expect(at(2), Ok(VecDeque::new())),
    ];
    let mut consumer = Consumer::new(5);
    let stream = stream_from(
        Position::Beginning,
        &["test-ingester-0", "test-ingester-1"],
    );
    let closed = fault_tolerant_fetch_stream(stream, &mut pool, &mut consumer);
    consumer.assert_response(Position::Beginning, at(2));
    consumer.assert_end();
    assert_eq!(closed.from_position_exclusive(), at(2));
}

#[test]
fn stream_closes_where_the_consumer_is_gone() {
    let mut pool = [
        MockIngester::new("test-ingester-0").expect(
            at(0),
            Ok(VecDeque::from([
                fetch_response(at(0), at(1)),
                fetch_response(at(1), at(2)),
            ])),
        ),
        MockIngester::new("test-ingester-1"),
    ];
    let mut consumer = Consumer::new(1);
    let stream = stream_from(at(0), &["test-ingester-0", "test-ingester-1"]);
    let closed = fault_tolerant_fetch_stream(stream, &mut pool, &mut consumer);
    consumer.assert_response(at(0), at(1));
    consumer.assert_end();
    // What has not been received does not count.
    assert_eq!(closed.from_position_exclusive(), at(1));
}

#[test]
fn stream_without_ingesters_closes() {
    let mut consumer = Consumer::new(5);
    assert!(!stream_from(at(3), &[]).has_ingester());
    let closed = fault_tolerant_fetch_stream(stream_from(at(3), &[]), &mut [], &mut consumer);
    consumer.assert_end();
    assert_eq!(closed.from_position_exclusive(), at(3));
}

fn retrying_from(position: Position, max_attempts: usize) -> RetryingFetchStream {
    RetryingFetchStream::new(
        "test-client".to_string(),
        "test-index:0".to_string(),
        "test-source".to_string(),
        1,
        position,
        vec!["test-ingester".to_string()],
        RetryParams { max_attempts },
    )
}

#[test]
fn test_retrying_fetch_stream() {
    let mut pool = [MockIngester::new("test-ingester")
        .expect(at(0), Err(internal("open fetch stream error")))
        .expect(
            at(0),
            Ok(VecDeque::from([
                fetch_response(at(0), at(1)),
                Err(internal("fetch stream error #1")),
            ])),
        )
        .expect(
            at(1),
            Ok(VecDeque::from([
                fetch_response(at(1), at(2)),
                Err(internal("fetch stream error #2")),
            ])),
        )];
    let mut consumer = Consumer::new(5);
    let delays = retrying_fetch_stream(retrying_from(at(0), 3), &mut pool, &mut consumer);

    consumer.assert_error(internal("open fetch stream error"));
    consumer.assert_response(at(0), at(1));
    consumer.assert_error(internal("fetch stream error #1"));
    consumer.assert_response(at(1), at(2));
    consumer.assert_error(internal("fetch stream error #2"));
    consumer.assert_end();
    assert!(pool[0].expected.is_empty());
    assert_eq!(delays, [1, 2, 3]);
}

/// Serves a request from a log, in batches of `batch_num_bytes` bytes, and fails after `patience`
/// responses.
fn serve(
    log: &[&[u8]],
    request: OpenFetchStreamRequest,
    batch_num_bytes: usize,
    patience: usize,
) -> ServiceStream {
    let mut task = FetchStreamTask::spawn(request, batch_num_bytes);
    let mut service_stream = ServiceStream::new();
    let mut action = task.next_action();
    while service_stream.len() < patience {
        action = match action {
            FetchTaskAction::AwaitNewRecords => task.on_new_records(false),
            FetchTaskAction::ReadMRecords {
                from_position_inclusive,
            } => task.on_mrecords(&log[from_position_inclusive as usize..]),
            FetchTaskAction::SendResponse(fetch_response) => {
                service_stream.push_back(Ok(fetch_response));
                task.on_response_sent(true)
            }
            FetchTaskAction::Stop(_) => return service_stream,
        };
    }
    service_stream.push_back(Err(internal("fetch stream error")));
    service_stream
}

#[test]
fn consumer_receives_the_log_despite_failures() {
    let log: [&[u8]; 8] = [
        b"\0\0a", b"\0\0bc", b"\0\0def", b"\0\0g", b"\0\0hi", b"\0\0jkl", b"\0\0m", b"\0\x02",
    ];
    let request = |offset: u64| OpenFetchStreamRequest {
        client_id: "test-client".to_string(),
        index_uid: "test-index:0".to_string(),
        source_id: "test-source".to_string(),
        shard_id: 1,
        from_position_exclusive: Some(at(offset)),
    };
    // Batches of one or two records; each stream fails after one response, but for the last.
    let mut pool = [MockIngester::new("test-ingester")
        .expect(at(0), Ok(serve(&log, request(0), 9, 1)))
        .expect(at(2), Ok(serve(&log, request(2), 5, 1)))
        .expect(at(3), Ok(serve(&log, request(3), 100, 1)))];
    let mut consumer = Consumer::new(10);
    retrying_fetch_stream(retrying_from(at(0), 5), &mut pool, &mut consumer);

    let mut bytes = Vec::new();
    let mut lengths = Vec::new();
    for fetch_response in consumer.received.into_iter().flatten() {
        let mrecord_batch = fetch_response.mrecord_batch.unwrap();
        bytes.extend_from_slice(&mrecord_batch.mrecord_buffer);
        lengths.extend_from_slice(&mrecord_batch.mrecord_lengths);
    }
    assert_eq!(bytes, log[1..].concat());
    assert_eq!(lengths, [4, 5, 3, 4, 5, 3, 2]);
}

#[test]
fn retries_end_at_the_end_of_the_shard() {
    let mut pool = [MockIngester::new("test-ingester")
        .expect(at(0), Err(internal("refused")))
        .expect(
            at(0),
            Ok(VecDeque::from([fetch_response(at(0), Position::Eof)])),
        )];
    let mut consumer = Consumer::new(5);
    let delays = retrying_fetch_stream(retrying_from(at(0), 10), &mut pool, &mut consumer);
    consumer.assert_error(internal("refused"));
    consumer.assert_response(at(0), Position::Eof);
    consumer.assert_end();
    assert_eq!(delays, [1]);
}

#[test]
fn no_attempt_is_made_where_none_is_allowed() {
    let mut consumer = Consumer::new(5);
    let delays = retrying_fetch_stream(retrying_from(at(0), 0), &mut [], &mut consumer);
    consumer.assert_end();
    assert!(delays.is_empty());
}

fn multi_fetch_stream() -> MultiFetchStream<u32> {
    MultiFetchStream::new(
        "test-node".to_string(),
        "test-client".to_string(),
        RetryParams { max_attempts: 2 },
    )
}

fn subscribe(multi_fetch_stream: &mut MultiFetchStream<u32>, shard_id: u64, handle: u32) -> IngestV2Result<()> {
    multi_fetch_stream.subscribe(
        "test-ingester-0".to_string(),
        None,
        "test-index:0".to_string(),
        "test-source".to_string(),
        shard_id,
        Position::Beginning,
        |_stream| handle,
    )
}

#[test]
fn test_multi_fetch_stream() {
    let _multi_fetch_stream = multi_fetch_stream();
}

#[test]
fn subscription_streams_from_the_replicas() {
    let mut multi_fetch_stream = multi_fetch_stream();
    let mut spawned = None;
    multi_fetch_stream
        .subscribe(
            "test-leader".to_string(),
            Some("test-node".to_string()),
            "test-index:0".to_string(),
            "test-source".to_string(),
            1,
            at(7),
            |stream| {
                spawned = Some(stream);
                1
            },
        )
        .unwrap();

    // The local replica is tried first, then the leader.
    let mut pool = [
        MockIngester::new("test-node").expect(at(7), Err(internal("refused"))),
        MockIngester::new("test-leader").expect(
            at(7),
            Ok(VecDeque::from([fetch_response(at(7), Position::Eof)])),
        ),
    ];
    let mut consumer = Consumer::new(5);
    let delays = retrying_fetch_stream(spawned.unwrap(), &mut pool, &mut consumer);
    consumer.assert_response(at(7), Position::Eof);
    consumer.assert_end();
    assert!(pool[0].expected.is_empty());
    assert!(delays.is_empty());
}

#[test]
fn shard_is_subscribed_to_once() {
    let mut multi_fetch_stream = multi_fetch_stream();
    assert_eq!(subscribe(&mut multi_fetch_stream, 1, 10), Ok(()));
    assert_eq!(subscribe(&mut multi_fetch_stream, 2, 20), Ok(()));
    assert_eq!(
        subscribe(&mut multi_fetch_stream, 1, 11),
        Err(internal(
            "stream has already subscribed to shard `test-index:0/test-source/1`"
        ))
    );
    let mut unsubscribe = |shard_id| {
        multi_fetch_stream
            .unsubscribe("test-index:0", "test-source", shard_id)
            .unwrap()
    };
    assert_eq!(unsubscribe(1), Some(10));
    assert_eq!(unsubscribe(1), None);
    assert_eq!(unsubscribe(3), None);
    assert_eq!(unsubscribe(2), Some(20));
    assert_eq!(subscribe(&mut multi_fetch_stream, 1, 12), Ok(()));
}

#[test]
fn reset_stream_has_no_subscriptions() {
    let mut multi_fetch_stream = multi_fetch_stream();
    for shard_id in 1..=3 {
        subscribe(&mut multi_fetch_stream, shard_id, shard_id as u32 * 10).unwrap();
    }
    let mut handles = multi_fetch_stream.reset();
    handles.sort();
    assert_eq!(handles, [10, 20, 30]);
    assert!(multi_fetch_stream.reset().is_empty());
    assert_eq!(subscribe(&mut multi_fetch_stream, 2, 21), Ok(()));
}

#[test]
fn refused_subscription_starts_no_task() {
    let mut multi_fetch_stream = multi_fetch_stream();
    let mut num_tasks = 0;
    for _ in 0..3 {
        let _ = multi_fetch_stream.subscribe(
            "test-ingester-0".to_string(),
            None,
            "test-index:0".to_string(),
            "test-source".to_string(),
            1,
            Position::Beginning,
            |_stream| {
                num_tasks += 1;
                num_tasks
            },
        );
    }
    assert_eq!(num_tasks, 1);
    assert_eq!(multi_fetch_stream.reset(), [1]);
}

#[test]
fn shard_has_at_most_one_live_task() {
    let mut multi_fetch_stream = multi_fetch_stream();
    let mut live: Vec<u32> = Vec::new();
    for round in 0..4 {
        for handle in [10 * round + 1, 10 * round + 2] {
            if subscribe(&mut multi_fetch_stream, 1, handle).is_ok() {
                live.push(handle);
            }
            assert_eq!(live.len(), 1);
        }
        let aborted = if round % 2 == 0 {
            multi_fetch_stream
                .unsubscribe("test-index:0", "test-source", 1)
                .unwrap()
                .into_iter()
                .collect()
        } else {
            multi_fetch_stream.reset()
        };
        assert_eq!(aborted, live);
        live.clear();
    }
}

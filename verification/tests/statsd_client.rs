use bytes::BufMut;
use bytes::Bytes;
use bytes::BytesMut;
use statsrelay::statsd::StatsdPDU;
use statsrelay::statsd_client::trim_to_next_newline;
use statsrelay::statsd_client::BatchAction;
use statsrelay::statsd_client::BatchEvent;
use statsrelay::statsd_client::Batcher;
use statsrelay::statsd_client::ClientSender;
use statsrelay::statsd_client::Link;
use statsrelay::statsd_client::SendAction;
use statsrelay::statsd_client::SendEvent;
use statsrelay::statsd_client::StatsdClient;
use statsrelay::statsd_client::SubmitError;
use statsrelay::statsd_client::CONNECT_TIMEOUT_SECS;
use statsrelay::statsd_client::RECONNECT_DELAY_SECS;
use statsrelay::statsd_client::SEND_DELAY_MILLIS;
use statsrelay::statsd_client::SEND_THRESHOLD;

fn line(text: &[u8]) -> StatsdPDU {
    StatsdPDU::new(Bytes::copy_from_slice(text)).unwrap()
}

fn chunk(text: &[u8]) -> BytesMut {
    let mut b = BytesMut::new();
    b.put_slice(text);
    b
}

#[test]
fn client_constants() {
    assert_eq!(RECONNECT_DELAY_SECS, 5);
    assert_eq!(CONNECT_TIMEOUT_SECS, 15);
    assert_eq!(SEND_DELAY_MILLIS, 500);
    assert_eq!(SEND_THRESHOLD, 1048576);
}

#[test]
fn client_knows_endpoint_and_capacity() {
    let (client, task) = StatsdClient::new("127.0.0.1:8125", 5);
    assert_eq!(client.endpoint(), "127.0.0.1:8125");
    assert_eq!(task.endpoint, "127.0.0.1:8125");
    assert_eq!(client.queue_capacity(), 5);
    assert!(client.serves(&"127.0.0.1:8125".to_string()));
    assert!(!client.serves(&"127.0.0.1:8126".to_string()));
    assert_eq!(client.sender().max_capacity(), 5);
}

#[test]
fn submissions_arrive_in_order_and_overflow_is_refused() {
    let (client, mut task) = StatsdClient::new("h:1", 2);
    assert_eq!(client.try_submit(line(b"a:1|c")), Ok(()));
    assert_eq!(client.try_submit(line(b"b:2|c")), Ok(()));
    assert_eq!(client.try_submit(line(b"c:3|c")), Err(SubmitError::QueueFull));
    assert_eq!(task.receiver.try_recv().unwrap().as_bytes(), b"a:1|c");
    assert_eq!(client.try_submit(line(b"d:4|c")), Ok(()));
    assert_eq!(task.receiver.try_recv().unwrap().as_bytes(), b"b:2|c");
    assert_eq!(task.receiver.try_recv().unwrap().as_bytes(), b"d:4|c");
    assert!(task.receiver.try_recv().is_err());
}

#[test]
fn clones_share_one_queue() {
    let (client, mut task) = StatsdClient::new("h:1", 4);
    let other = client.clone();
    assert_eq!(other.endpoint(), "h:1");
    assert!(client.sender().same_channel(&other.sender()));
    assert_eq!(other.try_submit(line(b"a:1|c")), Ok(()));
    assert_eq!(client.try_submit(line(b"b:1|c")), Ok(()));
    assert_eq!(task.receiver.try_recv().unwrap().as_bytes(), b"a:1|c");
    assert_eq!(task.receiver.try_recv().unwrap().as_bytes(), b"b:1|c");
}

#[test]
fn submission_to_a_closed_queue_is_refused() {
    let (client, task) = StatsdClient::new("h:1", 4);
    drop(task);
    assert_eq!(client.try_submit(line(b"a:1|c")), Err(SubmitError::Closed));
}

#[test]
fn trim_drops_through_the_first_newline() {
    let mut b = chunk(b"partial\nnext:1|c\nlast:1|c\n");
    trim_to_next_newline(&mut b);
    assert_eq!(b.as_ref(), b"next:1|c\nlast:1|c\n");
    let mut b = chunk(b"no newline");
    trim_to_next_newline(&mut b);
    assert_eq!(b.as_ref(), b"no newline");
    let mut b = chunk(b"\n");
    trim_to_next_newline(&mut b);
    assert!(b.is_empty());
    let mut b = BytesMut::new();
    trim_to_next_newline(&mut b);
    assert!(b.is_empty());
}

#[test]
fn batcher_waits_below_the_threshold_and_flushes_on_tick() {
    let mut batcher = Batcher::new();
    assert!(matches!(batcher.step(BatchEvent::Tick), BatchAction::Wait));
    assert!(matches!(batcher.step(BatchEvent::Pdu(line(b"a:1|c"))), BatchAction::Wait));
    assert!(matches!(batcher.step(BatchEvent::Pdu(line(b"b:2|c"))), BatchAction::Wait));
    match batcher.step(BatchEvent::Tick) {
        BatchAction::Send(sent) => assert_eq!(sent.as_ref(), b"a:1|c\nb:2|c\n"),
        _ => panic!("a tick with pending lines sends them"),
    }
    assert!(matches!(batcher.step(BatchEvent::Tick), BatchAction::Wait));
}

#[test]
fn batcher_flushes_at_the_threshold() {
    let mut batcher = Batcher::new();
    let mut big = vec![b'x'; SEND_THRESHOLD - 10];
    big[1] = b':';
    big[3] = b'|';
    assert!(matches!(batcher.step(BatchEvent::Pdu(line(&big))), BatchAction::Wait));
    match batcher.step(BatchEvent::Pdu(line(b"abcd:1|c"))) {
        BatchAction::Send(sent) => {
            assert_eq!(sent.len(), SEND_THRESHOLD);
            assert_eq!(&sent[..SEND_THRESHOLD - 10], &big[..]);
            assert_eq!(&sent[SEND_THRESHOLD - 10..], b"\nabcd:1|c\n");
        }
        _ => panic!("a batch at the threshold is sent"),
    }
    assert!(matches!(batcher.step(BatchEvent::Tick), BatchAction::Wait));
}

#[test]
fn batcher_flushes_once_at_the_end_and_exits() {
    let mut batcher = Batcher::new();
    assert!(matches!(batcher.step(BatchEvent::Pdu(line(b"a:1|c"))), BatchAction::Wait));
    match batcher.step(BatchEvent::Closed) {
        BatchAction::Send(sent) => assert_eq!(sent.as_ref(), b"a:1|c\n"),
        _ => panic!("the last lines are sent"),
    }
    assert!(matches!(batcher.step(BatchEvent::Closed), BatchAction::Exit));
    let mut idle = Batcher::new();
    assert!(matches!(idle.step(BatchEvent::Closed), BatchAction::Exit));
}

#[test]
fn sender_connects_then_writes_chunks() {
    let mut sender = ClientSender::new();
    assert_eq!(sender.pending(), b"");
    assert_eq!(sender.step(SendEvent::Connected), SendAction::AwaitChunk);
    assert_eq!(sender.step(SendEvent::Chunk(chunk(b"a:1|c\nb:1|c\n"))), SendAction::Write);
    assert_eq!(sender.pending(), b"a:1|c\nb:1|c\n");
    assert_eq!(sender.step(SendEvent::Wrote(12)), SendAction::Write);
    assert_eq!(sender.pending(), b"");
    assert_eq!(sender.step(SendEvent::Wrote(0)), SendAction::AwaitChunk);
    assert_eq!(sender.step(SendEvent::QueueClosed), SendAction::Exit);
}

#[test]
fn sender_retries_failed_connections_after_the_delay() {
    let mut sender = ClientSender::new();
    assert_eq!(sender.step(SendEvent::ConnectFailed), SendAction::ConnectAfterDelay);
    assert_eq!(sender.step(SendEvent::ConnectFailed), SendAction::ConnectAfterDelay);
    assert_eq!(sender.step(SendEvent::Connected), SendAction::AwaitChunk);
}

#[test]
fn sender_drops_the_broken_line_and_reconnects() {
    let mut sender = ClientSender::new();
    sender.step(SendEvent::Connected);
    sender.step(SendEvent::Chunk(chunk(b"a:1|c\nb:1|c\nc:1|c\n")));
    assert_eq!(sender.step(SendEvent::WriteFailed), SendAction::Connect);
    assert_eq!(sender.pending(), b"b:1|c\nc:1|c\n");
    assert_eq!(sender.step(SendEvent::Connected), SendAction::Write);
    assert_eq!(sender.step(SendEvent::Wrote(0)), SendAction::Connect);
    assert_eq!(sender.pending(), b"c:1|c\n");
    assert_eq!(sender.step(SendEvent::ConnectFailed), SendAction::ConnectAfterDelay);
    assert_eq!(sender.step(SendEvent::Connected), SendAction::Write);
    assert_eq!(sender.step(SendEvent::Wrote(6)), SendAction::Write);
    assert_eq!(sender.step(SendEvent::Wrote(0)), SendAction::AwaitChunk);
}

#[test]
fn sender_writes_the_rest_after_a_short_write() {
    let mut sender = ClientSender::new();
    sender.step(SendEvent::Connected);
    sender.step(SendEvent::Chunk(chunk(b"a:1|c\nb:1|c\n")));
    assert_eq!(sender.step(SendEvent::Wrote(4)), SendAction::Write);
    assert_eq!(sender.pending(), b"c\nb:1|c\n");
    assert_eq!(sender.link(), Link::Connected);
    assert_eq!(sender.step(SendEvent::Wrote(1)), SendAction::Write);
    assert_eq!(sender.pending(), b"\nb:1|c\n");
    assert_eq!(sender.step(SendEvent::Wrote(7)), SendAction::Write);
    assert_eq!(sender.pending(), b"");
    assert_eq!(sender.step(SendEvent::Wrote(0)), SendAction::AwaitChunk);
    assert_eq!(sender.step(SendEvent::Chunk(chunk(b"c:1|c\n"))), SendAction::Write);
    assert_eq!(sender.pending(), b"c:1|c\n");
}

#[test]
fn sender_skips_only_through_the_next_newline_after_a_partial_line() {
    let mut sender = ClientSender::new();
    sender.step(SendEvent::Connected);
    sender.step(SendEvent::Chunk(chunk(b"a:1|c\nb:1|c\nc:1|c\n")));
    assert_eq!(sender.step(SendEvent::Wrote(8)), SendAction::Write);
    assert_eq!(sender.pending(), b"1|c\nc:1|c\n");
    assert_eq!(sender.step(SendEvent::WriteFailed), SendAction::Connect);
    assert_eq!(sender.pending(), b"c:1|c\n");
    assert_eq!(sender.link(), Link::Connecting);
    assert_eq!(sender.step(SendEvent::Connected), SendAction::Write);
    assert_eq!(sender.step(SendEvent::Wrote(6)), SendAction::Write);
    assert_eq!(sender.step(SendEvent::Wrote(0)), SendAction::AwaitChunk);
}

#[test]
fn sender_connects_when_a_chunk_arrives_without_a_connection() {
    let mut sender = ClientSender::new();
    assert_eq!(sender.step(SendEvent::ConnectCancelled), SendAction::AwaitChunk);
    assert_eq!(sender.step(SendEvent::Chunk(chunk(b"a:1|c\n"))), SendAction::Connect);
    assert_eq!(sender.step(SendEvent::ConnectCancelled), SendAction::Exit);
}

#[test]
fn sender_ignores_write_results_without_a_chunk() {
    let mut sender = ClientSender::new();
    sender.step(SendEvent::Connected);
    assert_eq!(sender.step(SendEvent::Wrote(3)), SendAction::AwaitChunk);
    assert_eq!(sender.step(SendEvent::WriteFailed), SendAction::AwaitChunk);
    assert_eq!(sender.step(SendEvent::Chunk(chunk(b"a:1|c\n"))), SendAction::Write);
    assert_eq!(sender.step(SendEvent::Wrote(100)), SendAction::Write);
    assert_eq!(sender.pending(), b"");
}

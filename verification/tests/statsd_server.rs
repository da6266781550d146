use bytes::BufMut;
use bytes::BytesMut;
use statsrelay::backends::Backends;
use statsrelay::backends::Delivery;
use statsrelay::config::StatsdDuplicateTo;
use statsrelay::statsd_client::ClientTask;
use statsrelay::statsd_server::client_read;
use statsrelay::statsd_server::client_step;
use statsrelay::statsd_server::datagram_step;
use statsrelay::statsd_server::goodbye_line;
use statsrelay::statsd_server::process_buffer_newlines;
use statsrelay::statsd_server::process_datagram;
use statsrelay::statsd_server::ConnectionState;
use statsrelay::statsd_server::ReadEvent;
use statsrelay::statsd_server::TCP_READ_TIMEOUT_SECS;

fn buffer(text: &[u8]) -> BytesMut {
    let mut b = BytesMut::new();
    b.put_slice(text);
    b
}

fn one_backend(shards: &[&str]) -> (Backends, Vec<ClientTask>) {
    let mut backends = Backends::new();
    let conf = StatsdDuplicateTo {
        shard_map: shards.iter().map(|s| s.to_string()).collect(),
        shard_map_source: None,
        suffix: None,
        prefix: None,
        input_blocklist: None,
        input_filter: None,
    };
    let tasks = backends
        .replace_statsd_backend(&"a".to_string(), &conf, None)
        .unwrap();
    (backends, tasks)
}

#[test]
fn test_process_buffer_no_newlines() {
    let mut b = BytesMut::new();
    // Validate we don't consume non-newlines
    b.put_slice(b"hello");
    let r = process_buffer_newlines(&mut b);
    assert!(r.len() == 0);
    assert!(b.split().as_ref() == b"hello");
}

#[test]
fn test_process_buffer_newlines() {
    let mut b = BytesMut::new();
    // Validate we don't consume newlines, but not a remnant
    b.put_slice(b"hello:1|c\nhello:1|c\nhello2");
    let r = process_buffer_newlines(&mut b);
    assert!(r.len() == 2);
    assert!(b.split().as_ref() == b"hello2");
}

#[test]
fn test_process_buffer_cr_newlines() {
    let mut found = 0;
    let mut b = BytesMut::new();
    // Validate we don't consume newlines, but not a remnant
    b.put_slice(b"hello:1|c\r\nhello:1|c\nhello2");
    let r = process_buffer_newlines(&mut b);
    for w in r {
        assert!(w.pdu_type() == b"c");
        assert!(w.name() == b"hello");
        found += 1
    }
    assert_eq!(2, found);
    assert!(b.split().as_ref() == b"hello2");
}

#[test]
fn malformed_lines_are_dropped_silently() {
    let mut b = buffer(b"junk\na:1|c\n\n\r\nno bar:1\nb:2|g\ntail:3|c");
    let r = process_buffer_newlines(&mut b);
    assert_eq!(r.len(), 2);
    assert_eq!(r[0].as_bytes(), b"a:1|c");
    assert_eq!(r[1].as_bytes(), b"b:2|g");
    assert_eq!(b.as_ref(), b"tail:3|c");
}

#[test]
fn only_one_carriage_return_is_trimmed() {
    let mut b = buffer(b"a:1|c\r\r\n");
    let r = process_buffer_newlines(&mut b);
    assert_eq!(r.len(), 1);
    assert_eq!(r[0].as_bytes(), b"a:1|c\r");
    assert_eq!(r[0].pdu_type(), b"c\r");
    assert!(b.is_empty());
}

#[test]
fn empty_buffer_and_bare_newlines_yield_nothing() {
    let mut b = BytesMut::new();
    assert_eq!(process_buffer_newlines(&mut b).len(), 0);
    assert!(b.is_empty());
    let mut b = buffer(b"\n\n\n");
    assert_eq!(process_buffer_newlines(&mut b).len(), 0);
    assert!(b.is_empty());
}

#[test]
fn residual_is_kept_for_the_next_read() {
    let mut b = buffer(b"a:1|c\nb:2");
    let first = process_buffer_newlines(&mut b);
    assert_eq!(first.len(), 1);
    assert_eq!(b.as_ref(), b"b:2");
    b.put_slice(b"|c\nc");
    let second = process_buffer_newlines(&mut b);
    assert_eq!(second.len(), 1);
    assert_eq!(second[0].as_bytes(), b"b:2|c");
    assert_eq!(b.as_ref(), b"c");
}

#[test]
fn datagram_remnant_is_tried_as_a_line() {
    let mut b = buffer(b"a:1|c\nb:2|c");
    let r = process_datagram(&mut b);
    assert_eq!(r.len(), 2);
    assert_eq!(r[0].as_bytes(), b"a:1|c");
    assert_eq!(r[1].as_bytes(), b"b:2|c");
    assert!(b.is_empty());

    let mut b = buffer(b"single:1|c");
    let r = process_datagram(&mut b);
    assert_eq!(r.len(), 1);
    assert_eq!(r[0].name(), b"single");

    let mut b = buffer(b"a:1|c\nhello2");
    let r = process_datagram(&mut b);
    assert_eq!(r.len(), 1);
    assert!(b.is_empty());
}

#[test]
fn read_with_data_keeps_the_connection_reading() {
    let mut b = buffer(b"a:1|c\nrest");
    let step = client_read(&mut b, ReadEvent::Read(10));
    assert_eq!(step.pdus.len(), 1);
    assert_eq!(step.next, ConnectionState::Reading);
    assert!(!step.goodbye);
    assert_eq!(b.as_ref(), b"rest");
}

#[test]
fn end_of_stream_drains_and_closes() {
    let mut b = buffer(b"a:1|c\nb:2|c");
    let step = client_read(&mut b, ReadEvent::Read(0));
    assert_eq!(step.pdus.len(), 2);
    assert_eq!(step.pdus[1].as_bytes(), b"b:2|c");
    assert_eq!(step.next, ConnectionState::ClosedEof);
    assert!(!step.goodbye);
    assert!(b.is_empty());
}

#[test]
fn close_with_partial_garbage_emits_nothing() {
    let mut b = buffer(b"hello2");
    let step = client_read(&mut b, ReadEvent::Read(0));
    assert_eq!(step.pdus.len(), 0);
    assert_eq!(step.next, ConnectionState::ClosedEof);
    assert!(b.is_empty());
}

#[test]
fn end_of_stream_on_empty_buffer_closes() {
    let mut b = BytesMut::new();
    let step = client_read(&mut b, ReadEvent::Read(0));
    assert_eq!(step.pdus.len(), 0);
    assert_eq!(step.next, ConnectionState::ClosedEof);
}

#[test]
fn timeout_error_and_shutdown_close_without_draining() {
    let mut b = buffer(b"a:1|c\nrest");
    let step = client_read(&mut b, ReadEvent::TimedOut);
    assert_eq!(step.pdus.len(), 0);
    assert_eq!(step.next, ConnectionState::ClosedTimeout);
    assert!(!step.goodbye);
    assert_eq!(b.as_ref(), b"a:1|c\nrest");

    let step = client_read(&mut b, ReadEvent::Failed);
    assert_eq!(step.pdus.len(), 0);
    assert_eq!(step.next, ConnectionState::ClosedError);
    assert!(!step.goodbye);

    let step = client_read(&mut b, ReadEvent::Shutdown);
    assert_eq!(step.pdus.len(), 0);
    assert_eq!(step.next, ConnectionState::ClosedShutdown);
    assert!(step.goodbye);
    assert_eq!(b.as_ref(), b"a:1|c\nrest");
}

#[test]
fn goodbye_and_timeout_constants() {
    assert_eq!(goodbye_line(), "server closing due to shutdown, goodbye\n");
    assert_eq!(TCP_READ_TIMEOUT_SECS, 62);
}

#[test]
fn client_step_hands_lines_to_the_backends() {
    let (backends, mut tasks) = one_backend(&["h0:1", "h1:1", "h2:1", "h3:1"]);
    let mut b = buffer(b"apple:1|c\nbanana:2|c\njunk\nta");
    let step = client_step(&mut b, ReadEvent::Read(25), &backends);
    assert_eq!(step.next, ConnectionState::Reading);
    assert_eq!(step.deliveries.len(), 2);
    assert_eq!(step.deliveries[0], vec![Delivery::Submitted { slot: 2 }]);
    assert_eq!(step.deliveries[1], vec![Delivery::Submitted { slot: 3 }]);
    assert_eq!(b.as_ref(), b"ta");
    assert_eq!(tasks[2].receiver.try_recv().unwrap().as_bytes(), b"apple:1|c");
    assert_eq!(tasks[3].receiver.try_recv().unwrap().as_bytes(), b"banana:2|c");
    assert!(tasks[0].receiver.try_recv().is_err());
}

#[test]
fn datagram_step_hands_lines_and_remnant_to_the_backends() {
    let (backends, mut tasks) = one_backend(&["h0:1", "h1:1", "h2:1", "h3:1"]);
    let mut b = buffer(b"orange:1|c\nlemon:2|c");
    let deliveries = datagram_step(&mut b, &backends);
    assert_eq!(deliveries.len(), 2);
    assert_eq!(deliveries[0], vec![Delivery::Submitted { slot: 0 }]);
    assert_eq!(deliveries[1], vec![Delivery::Submitted { slot: 1 }]);
    assert!(b.is_empty());
    assert_eq!(tasks[0].receiver.try_recv().unwrap().as_bytes(), b"orange:1|c");
    assert_eq!(tasks[1].receiver.try_recv().unwrap().as_bytes(), b"lemon:2|c");
}

#[test]
fn reading_in_pieces_gives_the_same_lines_as_reading_whole() {
    let stream: &[u8] = b"a:1|c\r\njunk\nb:2|g|@0.5\n\nc:3|ms\ntail:4";
    let mut whole = buffer(stream);
    let expected: Vec<Vec<u8>> = process_buffer_newlines(&mut whole)
        .iter()
        .map(|pdu| pdu.as_bytes().to_vec())
        .collect();
    assert_eq!(expected.len(), 3);
    assert_eq!(whole.as_ref(), b"tail:4");
    for cut in 0..=stream.len() {
        let mut b = buffer(&stream[..cut]);
        let mut lines: Vec<Vec<u8>> = process_buffer_newlines(&mut b)
            .iter()
            .map(|pdu| pdu.as_bytes().to_vec())
            .collect();
        b.put_slice(&stream[cut..]);
        lines.extend(
            process_buffer_newlines(&mut b)
                .iter()
                .map(|pdu| pdu.as_bytes().to_vec()),
        );
        assert_eq!(lines, expected);
        assert_eq!(b.as_ref(), b"tail:4");
    }
}

use bytes::Bytes;
use statsrelay::backends::refused;
use statsrelay::backends::settle;
use statsrelay::backends::BackendError;
use statsrelay::backends::Backends;
use statsrelay::backends::Delivery;
use statsrelay::backends::Routed;
use statsrelay::backends::StatsdBackend;
use statsrelay::backends::DEFAULT_QUEUE_CAPACITY;
use statsrelay::config::StatsdDuplicateTo;
use statsrelay::discovery::Update;
use statsrelay::statsd::StatsdPDU;
use statsrelay::statsd_client::ClientTask;
use statsrelay::statsd_client::SubmitError;

fn line(text: &[u8]) -> StatsdPDU {
    StatsdPDU::new(Bytes::copy_from_slice(text)).unwrap()
}

fn conf(shards: &[&str]) -> StatsdDuplicateTo {
    StatsdDuplicateTo {
        shard_map: shards.iter().map(|s| s.to_string()).collect(),
        shard_map_source: None,
        suffix: None,
        prefix: None,
        input_blocklist: None,
        input_filter: None,
    }
}

fn update(hosts: &[&str]) -> Update {
    Update::new(hosts.iter().map(|s| s.to_string()).collect())
}

fn endpoints(tasks: &[ClientTask]) -> Vec<&str> {
    tasks.iter().map(|t| t.endpoint.as_str()).collect()
}

fn received(task: &mut ClientTask) -> Vec<Vec<u8>> {
    let mut lines = Vec::new();
    while let Ok(pdu) = task.receiver.try_recv() {
        lines.push(pdu.as_bytes().to_vec());
    }
    lines
}

const FOUR: [&str; 4] = ["h0:1", "h1:1", "h2:1", "h3:1"];

#[test]
fn fan_out_to_two_backends_by_hash() {
    let mut backends = Backends::new();
    let mut a = backends
        .replace_statsd_backend(&"a".to_string(), &conf(&FOUR), None)
        .unwrap();
    let mut b = backends
        .replace_statsd_backend(&"b".to_string(), &conf(&FOUR), None)
        .unwrap();
    assert_eq!(backends.len(), 2);
    let first = backends.provide_statsd_pdu(line(b"apple:1|c"));
    let second = backends.provide_statsd_pdu(line(b"banana:2|c"));
    assert_eq!(
        first,
        vec![Delivery::Submitted { slot: 2 }, Delivery::Submitted { slot: 2 }]
    );
    assert_eq!(
        second,
        vec![Delivery::Submitted { slot: 3 }, Delivery::Submitted { slot: 3 }]
    );
    for tasks in [&mut a, &mut b] {
        assert_eq!(received(&mut tasks[2]), vec![b"apple:1|c".to_vec()]);
        assert_eq!(received(&mut tasks[3]), vec![b"banana:2|c".to_vec()]);
        assert!(received(&mut tasks[0]).is_empty());
        assert!(received(&mut tasks[1]).is_empty());
    }
}

#[test]
fn affixes_apply_per_backend() {
    let mut renaming = conf(&["a:1"]);
    renaming.prefix = Some("p.".to_string());
    renaming.suffix = Some(".s".to_string());
    let mut backends = Backends::new();
    let mut a = backends
        .replace_statsd_backend(&"a".to_string(), &renaming, None)
        .unwrap();
    let mut b = backends
        .replace_statsd_backend(&"b".to_string(), &conf(&["b:1"]), None)
        .unwrap();
    let outcome = backends.provide_statsd_pdu(line(b"metric:1|c"));
    assert_eq!(
        outcome,
        vec![Delivery::Submitted { slot: 0 }, Delivery::Submitted { slot: 0 }]
    );
    assert_eq!(received(&mut a[0]), vec![b"p.metric.s:1|c".to_vec()]);
    assert_eq!(received(&mut b[0]), vec![b"metric:1|c".to_vec()]);
}

#[test]
fn prefix_alone_is_applied() {
    let mut renaming = conf(&["a:1"]);
    renaming.prefix = Some("test-1.".to_string());
    let (backend, mut tasks) = StatsdBackend::new(&renaming, None, None).unwrap();
    assert_eq!(
        backend.provide_statsd_pdu(&line(b"metric:1|c|@0.1")),
        Delivery::Submitted { slot: 0 }
    );
    assert_eq!(received(&mut tasks[0]), vec![b"test-1.metric:1|c|@0.1".to_vec()]);
}

#[test]
fn filter_lets_only_matching_names_pass() {
    let mut filtering = conf(&["a:1"]);
    filtering.input_filter = Some("^allow\\.".to_string());
    let (backend, mut tasks) = StatsdBackend::new(&filtering, None, None).unwrap();
    assert_eq!(
        backend.provide_statsd_pdu(&line(b"allow.x:1|c")),
        Delivery::Submitted { slot: 0 }
    );
    assert_eq!(backend.provide_statsd_pdu(&line(b"deny.x:1|c")), Delivery::Filtered);
    assert_eq!(received(&mut tasks[0]), vec![b"allow.x:1|c".to_vec()]);
}

#[test]
fn filter_looks_at_the_name_only() {
    let mut filtering = conf(&["a:1"]);
    filtering.input_filter = Some("secret".to_string());
    let (backend, _tasks) = StatsdBackend::new(&filtering, None, None).unwrap();
    assert_eq!(backend.provide_statsd_pdu(&line(b"x:secret|c")), Delivery::Filtered);
    assert_eq!(
        backend.provide_statsd_pdu(&line(b"my.secret:1|c")),
        Delivery::Submitted { slot: 0 }
    );
}

#[test]
fn blocklist_and_filter_form_one_set() {
    let mut filtering = conf(&["a:1"]);
    filtering.input_blocklist = Some("^block\\.".to_string());
    filtering.input_filter = Some("^allow\\.".to_string());
    let (backend, _tasks) = StatsdBackend::new(&filtering, None, None).unwrap();
    assert_eq!(
        backend.provide_statsd_pdu(&line(b"allow.x:1|c")),
        Delivery::Submitted { slot: 0 }
    );
    assert_eq!(
        backend.provide_statsd_pdu(&line(b"block.x:1|c")),
        Delivery::Submitted { slot: 0 }
    );
    assert_eq!(backend.provide_statsd_pdu(&line(b"other.x:1|c")), Delivery::Filtered);

    let mut blocking = conf(&["a:1"]);
    blocking.input_blocklist = Some("^block\\.".to_string());
    let (backend, _tasks) = StatsdBackend::new(&blocking, None, None).unwrap();
    assert_eq!(
        backend.provide_statsd_pdu(&line(b"block.x:1|c")),
        Delivery::Submitted { slot: 0 }
    );
    assert_eq!(backend.provide_statsd_pdu(&line(b"other.x:1|c")), Delivery::Filtered);
}

#[test]
fn invalid_filter_is_an_error_and_makes_nothing() {
    let mut broken = conf(&["a:1"]);
    broken.input_filter = Some("^(?=dontmatchme)".to_string());
    assert!(matches!(
        StatsdBackend::new(&broken, None, None),
        Err(BackendError::InvalidFilter)
    ));
    let mut backends = Backends::new();
    let _kept = backends
        .replace_statsd_backend(&"a".to_string(), &conf(&["a:1"]), None)
        .unwrap();
    assert!(matches!(
        backends.replace_statsd_backend(&"a".to_string(), &broken, None),
        Err(BackendError::InvalidFilter)
    ));
    assert!(matches!(
        backends.replace_statsd_backend(&"b".to_string(), &broken, None),
        Err(BackendError::InvalidFilter)
    ));
    assert_eq!(backends.backend_names(), vec!["a"]);
    assert_eq!(
        backends.provide_statsd_pdu(line(b"m:1|c")),
        vec![Delivery::Submitted { slot: 0 }]
    );
}

#[test]
fn empty_ring_is_a_no_op_and_single_ring_picks_slot_zero() {
    let (empty, tasks) = StatsdBackend::new(&conf(&[]), None, None).unwrap();
    assert!(tasks.is_empty());
    assert_eq!(empty.shards(), 0);
    assert_eq!(empty.provide_statsd_pdu(&line(b"apple:1|c")), Delivery::NoShards);
    assert!(matches!(empty.route_pdu(&line(b"apple:1|c")), Routed::NoShards));

    let (single, mut tasks) = StatsdBackend::new(&conf(&["only:1"]), None, None).unwrap();
    for name in ["apple", "banana", "orange", "lemon"] {
        let text = format!("{}:1|c", name);
        assert_eq!(
            single.provide_statsd_pdu(&line(text.as_bytes())),
            Delivery::Submitted { slot: 0 }
        );
    }
    assert_eq!(received(&mut tasks[0]).len(), 4);
}

#[test]
fn route_names_slot_and_renamed_line() {
    let mut renaming = conf(&FOUR);
    renaming.suffix = Some(".s".to_string());
    let (backend, _tasks) = StatsdBackend::new(&renaming, None, None).unwrap();
    match backend.route_pdu(&line(b"orange:1|c")) {
        Routed::To { slot, pdu } => {
            assert_eq!(slot, 0);
            assert_eq!(pdu.as_bytes(), b"orange.s:1|c");
        }
        _ => panic!("the line has a route"),
    }
    match backend.route_pdu(&line(b"lemon:1|c")) {
        Routed::To { slot, pdu } => {
            assert_eq!(slot, 1);
            assert_eq!(pdu.name(), b"lemon.s");
        }
        _ => panic!("the line has a route"),
    }
}

#[test]
fn ring_follows_the_shard_map_with_repetitions() {
    let (backend, tasks) =
        StatsdBackend::new(&conf(&["h1:1", "h1:1", "h2:2", "h2:2", "h1:1"]), None, None).unwrap();
    assert_eq!(backend.shards(), 5);
    assert_eq!(endpoints(&tasks), vec!["h1:1", "h2:2"]);
    let listed: Vec<&str> = (0..5).map(|i| backend.client_at(i).endpoint()).collect();
    assert_eq!(listed, vec!["h1:1", "h1:1", "h2:2", "h2:2", "h1:1"]);
    assert!(backend
        .client_at(0)
        .sender()
        .same_channel(&backend.client_at(4).sender()));
    assert!(!backend
        .client_at(0)
        .sender()
        .same_channel(&backend.client_at(2).sender()));
    assert_eq!(backend.client_at(0).queue_capacity(), DEFAULT_QUEUE_CAPACITY);
    assert_eq!(DEFAULT_QUEUE_CAPACITY, 100000);
}

#[test]
fn discovered_shard_map_wins_over_the_configured_one() {
    let discovered = update(&["d1:1", "d2:1"]);
    let (backend, tasks) =
        StatsdBackend::new(&conf(&["c1:1"]), None, Some(&discovered)).unwrap();
    assert_eq!(backend.shards(), 2);
    assert_eq!(endpoints(&tasks), vec!["d1:1", "d2:1"]);
    assert_eq!(backend.client_at(1).endpoint(), "d2:1");
}

#[test]
fn replacement_reuses_clients_of_known_endpoints() {
    let mut backends = Backends::new();
    let name = "a".to_string();
    let mut first = backends
        .replace_statsd_backend(&name, &conf(&["h1:1", "h2:1", "h3:1"]), None)
        .unwrap();
    assert_eq!(endpoints(&first), vec!["h1:1", "h2:1", "h3:1"]);

    let same = backends
        .replace_statsd_backend(&name, &conf(&["h1:1", "h2:1", "h3:1"]), None)
        .unwrap();
    assert!(same.is_empty());

    let second = backends
        .replace_statsd_backend(&name, &conf(&["h3:1", "h4:1", "h1:1", "h4:1"]), None)
        .unwrap();
    assert_eq!(endpoints(&second), vec!["h4:1"]);
    assert_eq!(backends.len(), 1);

    let outcome = backends.provide_statsd_pdu(line(b"orange:1|c"));
    assert_eq!(outcome, vec![Delivery::Submitted { slot: 0 }]);
    assert_eq!(received(&mut first[2]), vec![b"orange:1|c".to_vec()]);
    assert!(received(&mut first[0]).is_empty());
}

#[test]
fn clients_of_vanished_endpoints_are_released() {
    let mut backends = Backends::new();
    let name = "a".to_string();
    let mut first = backends
        .replace_statsd_backend(&name, &conf(&["h1:1", "h2:1"]), None)
        .unwrap();
    let _second = backends
        .replace_statsd_backend(&name, &conf(&["h1:1"]), None)
        .unwrap();
    assert!(matches!(
        first[1].receiver.try_recv(),
        Err(tokio::sync::mpsc::error::TryRecvError::Disconnected)
    ));
    assert!(matches!(
        first[0].receiver.try_recv(),
        Err(tokio::sync::mpsc::error::TryRecvError::Empty)
    ));
}

#[test]
fn remove_and_names() {
    let mut backends = Backends::new();
    let _a = backends
        .replace_statsd_backend(&"a".to_string(), &conf(&["h1:1"]), None)
        .unwrap();
    let _b = backends
        .replace_statsd_backend(&"b".to_string(), &conf(&["h2:1"]), None)
        .unwrap();
    assert_eq!(backends.backend_names(), vec!["a", "b"]);
    assert!(backends.has_backend(&"a".to_string()));
    assert!(backends.remove_statsd_backend(&"a".to_string()).is_ok());
    assert!(backends.remove_statsd_backend(&"zzz".to_string()).is_ok());
    assert_eq!(backends.backend_names(), vec!["b"]);
    assert!(!backends.has_backend(&"a".to_string()));
    assert_eq!(backends.len(), 1);
    assert_eq!(
        backends.provide_statsd_pdu(line(b"m:1|c")),
        vec![Delivery::Submitted { slot: 0 }]
    );
    assert!(Backends::new().provide_statsd_pdu(line(b"m:1|c")).is_empty());
}

#[test]
fn full_queue_drops_and_counts_without_blocking() {
    let (backend, mut tasks) = StatsdBackend::new(&conf(&["down:1"]), None, None).unwrap();
    for _ in 0..DEFAULT_QUEUE_CAPACITY {
        assert_eq!(
            backend.provide_statsd_pdu(&line(b"m:1|c")),
            Delivery::Submitted { slot: 0 }
        );
    }
    assert_eq!(
        backend.provide_statsd_pdu(&line(b"m:1|c")),
        Delivery::Dropped { slot: 0, failures: 0, warn: true }
    );
    assert_eq!(
        backend.provide_statsd_pdu(&line(b"m:1|c")),
        Delivery::Dropped { slot: 0, failures: 1, warn: false }
    );
    for _ in 2..1000 {
        backend.provide_statsd_pdu(&line(b"m:1|c"));
    }
    assert_eq!(
        backend.provide_statsd_pdu(&line(b"m:1|c")),
        Delivery::Dropped { slot: 0, failures: 1000, warn: true }
    );
    assert!(tasks[0].receiver.try_recv().is_ok());
    assert_eq!(
        backend.provide_statsd_pdu(&line(b"m:1|c")),
        Delivery::Submitted { slot: 0 }
    );
}

#[test]
fn settle_marks_every_thousandth_refusal() {
    assert_eq!(settle(3, Ok(()), 17), Delivery::Submitted { slot: 3 });
    assert_eq!(
        settle(3, Err(SubmitError::QueueFull), 0),
        Delivery::Dropped { slot: 3, failures: 0, warn: true }
    );
    assert_eq!(
        settle(1, Err(SubmitError::Closed), 999),
        Delivery::Dropped { slot: 1, failures: 999, warn: false }
    );
    assert_eq!(
        refused(2, 2000),
        Delivery::Dropped { slot: 2, failures: 2000, warn: true }
    );
    assert_eq!(
        refused(2, 2001),
        Delivery::Dropped { slot: 2, failures: 2001, warn: false }
    );
}

use bytes::Bytes;
use statsrelay::statsd::StatsdPDU;

fn parse(text: &[u8]) -> Option<StatsdPDU> {
    StatsdPDU::new(Bytes::copy_from_slice(text))
}

#[test]
fn parses_name_value_and_type() {
    let pdu = parse(b"apple:1|c").unwrap();
    assert_eq!(pdu.name(), b"apple");
    assert_eq!(pdu.value(), b"1");
    assert_eq!(pdu.pdu_type(), b"c");
    assert_eq!(pdu.len(), 9);
    assert_eq!(pdu.as_bytes(), b"apple:1|c");
}

#[test]
fn type_ends_before_the_sample_rate() {
    let pdu = parse(b"timer:3.5|ms|@0.1").unwrap();
    assert_eq!(pdu.name(), b"timer");
    assert_eq!(pdu.value(), b"3.5");
    assert_eq!(pdu.pdu_type(), b"ms");
    assert_eq!(pdu.as_bytes(), b"timer:3.5|ms|@0.1");
}

#[test]
fn name_may_hold_colons() {
    let pdu = parse(b"a:b:1|c").unwrap();
    assert_eq!(pdu.name(), b"a:b");
    assert_eq!(pdu.value(), b"1");
    assert_eq!(pdu.pdu_type(), b"c");
}

#[test]
fn a_bar_before_the_first_colon_belongs_to_the_name() {
    let pdu = parse(b"a|b:c|d").unwrap();
    assert_eq!(pdu.name(), b"a|b");
    assert_eq!(pdu.value(), b"c");
    assert_eq!(pdu.pdu_type(), b"d");
}

#[test]
fn rejects_candidates_without_colon_then_bar() {
    assert!(parse(b"").is_none());
    assert!(parse(b"hello2").is_none());
    assert!(parse(b"hello:1").is_none());
    assert!(parse(b"hello|c").is_none());
    assert!(parse(b"hello|c:1").is_none());
    assert!(parse(b"|:").is_none());
}

#[test]
fn accepts_empty_segments() {
    let pdu = parse(b":|").unwrap();
    assert_eq!(pdu.name(), b"");
    assert_eq!(pdu.value(), b"");
    assert_eq!(pdu.pdu_type(), b"");
    let pdu = parse(b"n:|").unwrap();
    assert_eq!(pdu.name(), b"n");
    assert_eq!(pdu.pdu_type(), b"");
}

#[test]
fn prefix_and_suffix_wrap_the_name_only() {
    let pdu = parse(b"metric:1|c|@0.5").unwrap();
    let renamed = pdu.with_prefix_suffix(b"p.", b".s");
    assert_eq!(renamed.name(), b"p.metric.s");
    assert_eq!(renamed.value(), b"1");
    assert_eq!(renamed.pdu_type(), b"c");
    assert_eq!(renamed.as_bytes(), b"p.metric.s:1|c|@0.5");
    assert_eq!(renamed.len(), 19);
    assert_eq!(pdu.as_bytes(), b"metric:1|c|@0.5");
}

#[test]
fn prefix_alone_and_suffix_alone() {
    let pdu = parse(b"metric:1|c").unwrap();
    assert_eq!(pdu.with_prefix_suffix(b"p.", b"").as_bytes(), b"p.metric:1|c");
    assert_eq!(pdu.with_prefix_suffix(b"", b".s").as_bytes(), b"metric.s:1|c");
}

#[test]
fn empty_affixes_change_nothing() {
    let pdu = parse(b"metric:1|c").unwrap();
    let same = pdu.with_prefix_suffix(b"", b"");
    assert_eq!(same.as_bytes(), b"metric:1|c");
    assert_eq!(same.name(), b"metric");
    assert_eq!(same.as_bytes().as_ptr(), pdu.as_bytes().as_ptr());
}

#[test]
fn affixes_with_separators_stay_in_the_name() {
    let pdu = parse(b"m:1|c").unwrap();
    let renamed = pdu.with_prefix_suffix(b"x:y|", b"|z");
    assert_eq!(renamed.name(), b"x:y|m|z");
    assert_eq!(renamed.value(), b"1");
    assert_eq!(renamed.pdu_type(), b"c");
}

#[test]
fn clones_share_the_line() {
    let pdu = parse(b"metric:1|c").unwrap();
    let copy = pdu.clone();
    assert_eq!(copy.as_bytes(), pdu.as_bytes());
    assert_eq!(copy.name(), b"metric");
    assert_eq!(copy.as_bytes().as_ptr(), pdu.as_bytes().as_ptr());
    let other = pdu.duplicate();
    assert_eq!(other.pdu_type(), b"c");
}

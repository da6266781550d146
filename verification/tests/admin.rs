use statsrelay::admin::route;
use statsrelay::admin::AdminReply;
use statsrelay::stats::scoped_name;
use statsrelay::stats::SEP;

#[test]
fn admin_routes() {
    assert_eq!(route(true, &"/".to_string()), AdminReply::Banner);
    assert_eq!(route(true, &"/healthcheck".to_string()), AdminReply::Healthy);
    assert_eq!(route(true, &"/metrics".to_string()), AdminReply::Metrics);
    assert_eq!(route(true, &"/other".to_string()), AdminReply::NotFound);
    assert_eq!(route(true, &"".to_string()), AdminReply::NotFound);
    assert_eq!(route(true, &"/healthcheck/".to_string()), AdminReply::NotFound);
    assert_eq!(route(false, &"/".to_string()), AdminReply::NotFound);
    assert_eq!(route(false, &"/healthcheck".to_string()), AdminReply::NotFound);
    assert_eq!(route(false, &"/metrics".to_string()), AdminReply::NotFound);
}

#[test]
fn admin_replies() {
    assert_eq!(AdminReply::Banner.status(), 200);
    assert_eq!(AdminReply::Healthy.status(), 200);
    assert_eq!(AdminReply::Metrics.status(), 200);
    assert_eq!(AdminReply::NotFound.status(), 404);
    assert_eq!(AdminReply::Banner.body(), Some("statsrelay admin server"));
    assert_eq!(AdminReply::Healthy.body(), Some("OK"));
    assert_eq!(AdminReply::Metrics.body(), None);
    assert_eq!(AdminReply::NotFound.body(), Some("not found"));
}

#[test]
fn counter_names_are_scoped() {
    assert_eq!(SEP, ':');
    assert_eq!(scoped_name("prefix", "counter"), "prefix:counter");
    assert_eq!(
        scoped_name(scoped_name("statsrelay", "backends").as_str(), "reloads"),
        "statsrelay:backends:reloads"
    );
    assert_eq!(scoped_name("", ""), ":");
}

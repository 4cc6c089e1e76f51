use spacegate_kernel::config::gateway_dto::SgParameters;
use spacegate_kernel::config::http_route_dto::{SgBackendRef, SgHttpRouteRule};
use spacegate_kernel::plugins::filters::status::backend_names;
use spacegate_kernel::plugins::filters::SgPluginFilterInitDto;
use spacegate_kernel::plugins::filters::status::sliding_window::SlidingWindowCounter;
use spacegate_kernel::plugins::filters::status::status_plugin::{create_status_html, Status, StatusTable};
use spacegate_kernel::plugins::filters::status::SgFilterStatus;
use spacegate_kernel::plugins::filters::SgAttachedLevel;

fn ms(s: &str) -> i64 {
    chrono::DateTime::parse_from_rfc3339(s).unwrap().timestamp_millis()
}

#[test]
fn sliding_window_test() {
    let mut test = SlidingWindowCounter::new_at(60_000, 12, ms("2000-01-01T01:00:00.000Z"));

    assert!(test.get_data().len() == 12);
    test.add_one(ms("2000-01-01T01:00:01.100Z"));
    test.add_one(ms("2000-01-01T01:00:01.200Z"));
    test.add_one(ms("2000-01-01T01:00:01.300Z"));
    assert_eq!(test.get_data()[0].count, 3);
    test.add_one(ms("2000-01-01T01:00:59.100Z"));
    test.add_one(ms("2000-01-01T01:00:59.200Z"));
    test.add_one(ms("2000-01-01T01:00:59.300Z"));
    assert_eq!(test.get_data()[11].count, 3);

    assert_eq!(test.count_in_window(ms("2000-01-01T01:01:00.000Z")), 6);
    assert_eq!(test.count_in_window(ms("2000-01-01T01:02:00.000Z")), 0);

    // test add out of window time
    test.add_one(ms("2000-01-01T01:01:00.100Z"));
    test.add_one(ms("2000-01-01T01:01:00.200Z"));
    test.add_one(ms("2000-01-01T01:01:00.300Z"));
    assert_eq!(test.get_data()[0].count, 3);
    assert_eq!(test.start_slot(), 1);

    assert_eq!(test.count_in_window(ms("2000-01-01T01:02:00.000Z")), 3);

    //slide window
    test.add_one(ms("2000-01-01T01:01:06.100Z"));
    test.add_one(ms("2000-01-01T01:01:06.200Z"));
    test.add_one(ms("2000-01-01T01:01:06.300Z"));
    assert_eq!(test.get_data()[1].count, 3);
    assert_eq!(test.start_slot(), 2);

    assert_eq!(test.count_in_window(ms("2000-01-01T01:02:00.000Z")), 6);

    //slide window
    test.add_one(ms("2000-01-01T01:01:50.100Z"));
    test.add_one(ms("2000-01-01T01:01:50.200Z"));
    assert_eq!(test.get_data()[10].count, 2);
    assert_eq!(test.start_slot(), 11);

    assert_eq!(test.count_in_window(ms("2000-01-01T01:02:00.000Z")), 8);

    //test reinit
    test.add_one(ms("2000-01-01T01:03:05.100Z"));
    assert_eq!(test.get_data()[0].count, 1);
    assert_eq!(test.start_slot(), 0);

    assert_eq!(test.count_in_window(ms("2000-01-01T01:03:06.000Z")), 1);

    //test critical case
    test.add_one(ms("2000-01-01T01:04:05.100Z"));
    test.add_one(ms("2000-01-01T01:04:05.100Z"));
    assert_eq!(test.get_data()[0].count, 2);
    assert_eq!(test.start_slot(), 1);

    assert_eq!(test.count_in_window(ms("2000-01-01T01:04:05.100Z")), 2);

    test.add_one(ms("2000-01-01T01:05:10.100Z"));
    test.add_one(ms("2000-01-01T01:05:10.100Z"));
    assert_eq!(test.get_data()[0].count, 2);
    assert_eq!(test.start_slot(), 0);

    assert_eq!(test.count_in_window(ms("2000-01-01T01:05:10.100Z")), 2);
}

#[test]
fn added_event_is_counted_at_once() {
    let t0 = ms("2020-06-01T00:00:00.000Z");
    let mut w = SlidingWindowCounter::new_at(3000, 60, t0);
    assert_eq!(w.add_and_count(t0 + 10), 0);
    assert_eq!(w.count_in_window(t0 + 10), 1);
    assert_eq!(w.add_and_count(t0 + 2990), 1);
    assert_eq!(w.count_in_window(t0 + 2990), 2);
    assert_eq!(w.total(), 2);
    // a window whose slots do not divide it evenly refuses a far move
    let w2 = SlidingWindowCounter::new_at(5000, 60, t0);
    assert!(w2.overruns(t0 + 9990));
    assert!(!w2.overruns(t0 + 9000));
}

#[test]
fn status_follows_errors() {
    let t0 = ms("2021-01-01T00:00:00.000Z");
    let mut filter = SgFilterStatus::default();
    assert_eq!(filter.unhealthy_threshold, 3);
    let mut table = StatusTable::new();
    filter.init_at(&mut table, SgAttachedLevel::Gateway, &vec!["b1".to_string(), "b2".to_string()], t0);
    assert_eq!(table.get_status("b1"), Some(Status::Good));
    assert_eq!(table.len(), 2);
    // errors: minor, minor, minor, then major once three are in the window
    for i in 0..3 {
        assert!(filter.can_count(t0 + 100 + i));
        assert_eq!(filter.resp_filter_at(&mut table, Some("b1"), true, t0 + 100 + i), Some(i as u64));
        assert_eq!(table.get_status("b1"), Some(Status::Minor));
    }
    assert_eq!(filter.resp_filter_at(&mut table, Some("b1"), true, t0 + 200), Some(3));
    assert_eq!(table.get_status("b1"), Some(Status::Major));
    // a good response makes it good again
    assert_eq!(filter.resp_filter_at(&mut table, Some("b1"), false, t0 + 300), None);
    assert_eq!(table.get_status("b1"), Some(Status::Good));
    // without a backend nothing changes
    assert_eq!(filter.resp_filter_at(&mut table, None, true, t0 + 400), None);
    assert_eq!(Status::Major.to_html_css_class(), "major");
    assert_eq!(Status::default().to_html_css_class(), "good");
    // another level does not set up the table
    let mut other = StatusTable::new();
    filter.init_at(&mut other, SgAttachedLevel::Rule, &vec!["x".to_string()], t0);
    assert_eq!(other.len(), 0);
}

#[test]
fn status_page_html() {
    let statuses = vec![("iam".to_string(), Status::Good), ("cache".to_string(), Status::Major)];
    let page = create_status_html("<title>{title}</title><body>{status}</body>", "Gateway", &statuses);
    let expected = format!(
        "<title>Gateway</title><body>{}{}</body>",
        r##"<div class="service">
                            <div class="service-name">iam</div>
                            <div class="service-status good">Status</div>
                        </div>"##,
        r##"<div class="service">
                            <div class="service-name">cache</div>
                            <div class="service-status major">Status</div>
                        </div>"##
    );
    assert_eq!(page, expected);
    assert_eq!(create_status_html("{title}", "t", &vec![]), "t");
}

#[test]
fn status_init_from_rules() {
    let b = |n: &str| SgBackendRef { name_or_host: n.to_string(), namespace: None, port: 80, timeout_ms: None, protocol: None, weight: None, filters: None };
    let rule = |bs: Option<Vec<SgBackendRef>>| SgHttpRouteRule { matches: None, filters: None, backends: bs, timeout_ms: None };
    let rules = vec![rule(Some(vec![b("test1"), b("test2")])), rule(None), rule(Some(vec![b("test3")]))];
    assert_eq!(backend_names(&rules), vec!["test1".to_string(), "test2".to_string(), "test3".to_string()]);
    let dto = SgPluginFilterInitDto { gateway_name: "gw".to_string(), gateway_parameters: SgParameters::default(), http_route_rules: rules, attached_level: SgAttachedLevel::Gateway };
    let mut filter = SgFilterStatus::default();
    let mut table = StatusTable::new();
    table.update_status("stale", Status::Major);
    filter.init(&mut table, &dto);
    assert_eq!(table.len(), 3);
    assert_eq!(table.get_status("test3"), Some(Status::Good));
    assert_eq!(table.get_status("stale"), None);
    assert_eq!(filter.counter.total(), 0);
    // the first error makes the backend minor, the fourth major
    let now = filter.counter.start_time();
    for i in 0..4 {
        filter.resp_filter_at(&mut table, Some("test1"), true, now + i);
        let want = if i < 3 { Status::Minor } else { Status::Major };
        assert_eq!(table.get_status("test1"), Some(want));
    }
    filter.resp_filter_at(&mut table, Some("test1"), false, now + 10);
    assert_eq!(table.get_status("test1"), Some(Status::Good));
}

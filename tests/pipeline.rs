use spam_counter::calendar::{format_date, CivilDate};
use spam_counter::counts::{drain, local_day, tally, DailyCounts, DayCount, ItemDetail};
use spam_counter::errors::AppError;
use spam_counter::paging::{build_query, category_label, collect_ids, cutoff_date, ItemRef, Lister, Page};
use spam_counter::report::{build, render_all, ReportLine};
use spam_counter::retry::{classify, decide, RemoteFailure, Retrier, RetryDecision};
use spam_counter::run::{conclude, ListingOutcome};

fn date(year: u32, month: u32, day: u32) -> CivilDate {
    CivilDate { year, month, day }
}

fn detail(id: &str, stamp: Option<i64>) -> ItemDetail {
    ItemDetail { id: id.to_string(), internal_date: stamp }
}

fn item(id: &str) -> ItemRef {
    ItemRef { id: Some(id.to_string()) }
}

fn counts_of(days: &[(CivilDate, u64)]) -> DailyCounts {
    let mut counts = DailyCounts::new();
    for (d, n) in days {
        for _ in 0..*n {
            counts.add(*d);
        }
    }
    counts
}

fn rendered(counts: &DailyCounts, cutoff: &CivilDate) -> Vec<String> {
    render_all(&build(counts, cutoff))
}

#[test]
fn one_page_three_items_report() {
    let details = vec![
        detail("a", Some(1714557600000)),
        detail("b", Some(1714604400000)),
        detail("c", Some(1714609800000)),
    ];
    // The day of each item depends on the zone; all three are counted.
    let drained = drain(&details);
    let total: u64 = drained.entries().iter().map(|e| e.count).sum();
    assert_eq!(total, 3);

    // With the zone at UTC the days are these.
    let counts = counts_of(&[(date(2024, 5, 1), 2), (date(2024, 5, 2), 1)]);
    assert_eq!(
        counts.entries().clone(),
        vec![
            DayCount { date: date(2024, 5, 1), count: 2 },
            DayCount { date: date(2024, 5, 2), count: 1 },
        ]
    );
    let lines = rendered(&counts, &date(2024, 4, 1));
    assert_eq!(lines, vec!["Wed 2024-05-01 2", "Thu 2024-05-02 1", "Total: 3"]);
}

#[test]
fn empty_first_page_means_no_matches() {
    let mut lister = Lister::new();
    assert_eq!(lister.next_token(), None);
    let action = lister.on_page(Page { items: vec![], next_token: None });
    assert!(action.ids.is_empty());
    assert!(!action.more);
    assert!(lister.is_finished());
    assert!(!lister.saw_items());
    let r = conclude(ListingOutcome::Completed, lister.saw_items(), DailyCounts::new());
    assert_eq!(r.clone().err(), Some(AppError::NoSpamMessages));
    assert!(r.err().unwrap().is_no_matches());
}

#[test]
fn empty_first_page_with_token_still_ends() {
    let mut lister = Lister::new();
    let action = lister.on_page(Page { items: vec![], next_token: Some("t".to_string()) });
    assert!(!action.more);
    assert!(lister.is_finished());
}

#[test]
fn unfetchable_item_is_dropped() {
    let mut retrier = Retrier::new();
    assert_eq!(retrier.on_failure(&RemoteFailure::Status(404)), RetryDecision::GiveUp);
    assert_eq!(retrier.retries(), 0);
    // The two items that did come are still counted.
    let details = vec![detail("a", Some(1714557600000)), detail("c", Some(1714609800000))];
    let drained = drain(&details);
    let total: u64 = drained.entries().iter().map(|e| e.count).sum();
    assert_eq!(total, 2);
    let r = conclude(ListingOutcome::Completed, true, drained);
    assert!(r.is_ok());
}

#[test]
fn cutoff_splits_report_with_blank_line() {
    let counts = counts_of(&[(date(2024, 4, 30), 1), (date(2024, 5, 1), 2)]);
    let lines = rendered(&counts, &date(2024, 5, 1));
    assert_eq!(lines, vec!["Tue 2024-04-30 1", "", "Wed 2024-05-01 2", "Total: 3"]);
}

#[test]
fn no_separator_when_all_on_one_side() {
    let counts = counts_of(&[(date(2024, 4, 30), 1), (date(2024, 5, 1), 2)]);
    assert_eq!(rendered(&counts, &date(2024, 4, 1)), vec!["Tue 2024-04-30 1", "Wed 2024-05-01 2", "Total: 3"]);
    assert_eq!(rendered(&counts, &date(2024, 6, 1)), vec!["Tue 2024-04-30 1", "Wed 2024-05-01 2", "Total: 3"]);
}

#[test]
fn empty_counts_report_no_data() {
    let lines = build(&DailyCounts::new(), &date(2024, 5, 1));
    assert_eq!(lines, vec![ReportLine::NoData]);
    assert_eq!(render_all(&lines), vec!["No spam messages to summarize."]);
}

#[test]
fn report_is_repeatable() {
    let counts = counts_of(&[(date(2024, 4, 29), 4), (date(2024, 5, 3), 1), (date(2024, 5, 1), 7)]);
    let cutoff = date(2024, 5, 1);
    assert_eq!(build(&counts, &cutoff), build(&counts, &cutoff));
    assert_eq!(
        rendered(&counts, &cutoff),
        vec!["Mon 2024-04-29 4", "", "Wed 2024-05-01 7", "Fri 2024-05-03 1", "Total: 12"]
    );
}

#[test]
fn pages_follow_tokens_until_none() {
    let mut lister = Lister::new();
    let a = lister.on_page(Page {
        items: vec![item("m1"), ItemRef { id: None }, item("m2")],
        next_token: Some("p2".to_string()),
    });
    assert_eq!(a.ids, vec!["m1".to_string(), "m2".to_string()]);
    assert!(a.more);
    assert_eq!(lister.next_token(), Some("p2".to_string()));
    let b = lister.on_page(Page { items: vec![], next_token: Some("p3".to_string()) });
    assert!(b.ids.is_empty());
    assert!(b.more);
    assert_eq!(lister.next_token(), Some("p3".to_string()));
    let c = lister.on_page(Page { items: vec![item("m3")], next_token: None });
    assert_eq!(c.ids, vec!["m3".to_string()]);
    assert!(!c.more);
    assert!(lister.is_finished());
    assert!(lister.saw_items());
}

#[test]
fn invalid_timestamps_are_counted_nowhere() {
    let details = vec![
        detail("zero", Some(0)),
        detail("negative", Some(-5)),
        detail("lowest", Some(i64::MIN)),
        detail("missing", None),
        detail("five_digit_year", Some(253402387200000)),
        detail("largest", Some(i64::MAX)),
        detail("good", Some(1714557600000)),
        detail("first", Some(1)),
        detail("last_day", Some(253402214400000)),
    ];
    let drained = drain(&details);
    let total: u64 = drained.entries().iter().map(|e| e.count).sum();
    assert_eq!(total, 3);
}

#[test]
fn local_day_of_items() {
    assert_eq!(local_day(&detail("a", None)), None);
    assert_eq!(local_day(&detail("a", Some(0))), None);
    assert_eq!(local_day(&detail("a", Some(-42))), None);
    assert_eq!(local_day(&detail("a", Some(253402387200000))), None);
    let d = local_day(&detail("a", Some(253402214400000))).unwrap();
    assert!(d == date(9999, 12, 30) || d == date(9999, 12, 31));
    let e = local_day(&detail("a", Some(1))).unwrap();
    assert!(e == date(1969, 12, 31) || e == date(1970, 1, 1));
}

#[test]
fn tally_counts_given_days() {
    let counts = tally(&vec![
        Some(date(2024, 5, 2)),
        None,
        Some(date(2024, 5, 1)),
        Some(date(2024, 5, 1)),
        None,
    ]);
    assert_eq!(
        counts.entries().clone(),
        vec![
            DayCount { date: date(2024, 5, 1), count: 2 },
            DayCount { date: date(2024, 5, 2), count: 1 },
        ]
    );
    let lines = render_all(&build(&counts, &date(2024, 4, 1)));
    assert_eq!(lines, vec!["Wed 2024-05-01 2", "Thu 2024-05-02 1", "Total: 3"]);
}

#[test]
fn dayless_items_leave_tally_unchanged() {
    let a = tally(&vec![Some(date(2024, 5, 1)), Some(date(2024, 5, 2))]);
    let b = tally(&vec![None, Some(date(2024, 5, 1)), None, Some(date(2024, 5, 2)), None]);
    assert_eq!(a.entries().clone(), b.entries().clone());
}

#[test]
fn timeout_discards_counts() {
    let counts = counts_of(&[(date(2024, 5, 1), 5)]);
    let r = conclude(ListingOutcome::TimedOut(60), true, counts);
    assert_eq!(r.err(), Some(AppError::Timeout(60)));
}

#[test]
fn listing_failure_is_reported() {
    let r = conclude(ListingOutcome::Failed(AppError::GmailApi("403".to_string())), true, DailyCounts::new());
    assert_eq!(r.err(), Some(AppError::GmailApi("403".to_string())));
}

#[test]
fn transient_and_permanent_failures() {
    assert!(classify(&RemoteFailure::Status(500)));
    assert!(classify(&RemoteFailure::Status(503)));
    assert!(classify(&RemoteFailure::Status(301)));
    assert!(classify(&RemoteFailure::Status(100)));
    assert!(classify(&RemoteFailure::Transport));
    assert!(!classify(&RemoteFailure::Status(400)));
    assert!(!classify(&RemoteFailure::Status(401)));
    assert!(!classify(&RemoteFailure::Status(404)));
    assert!(!classify(&RemoteFailure::Status(200)));
    assert!(!classify(&RemoteFailure::Other));
}

#[test]
fn decision_follows_policy_delay() {
    assert_eq!(decide(&RemoteFailure::Status(502), Some(750)), RetryDecision::Retry(750));
    assert_eq!(decide(&RemoteFailure::Status(502), None), RetryDecision::GiveUp);
    assert_eq!(decide(&RemoteFailure::Status(404), Some(750)), RetryDecision::GiveUp);
}

#[test]
fn transient_failure_is_retried() {
    let mut retrier = Retrier::new();
    match retrier.on_failure(&RemoteFailure::Status(503)) {
        RetryDecision::Retry(ms) => assert!(ms <= 15 * 60 * 1000),
        RetryDecision::GiveUp => panic!("a fresh policy offers a delay"),
    }
    assert_eq!(retrier.retries(), 1);
}

#[test]
fn cutoff_and_query() {
    let cutoff = cutoff_date(1717113600000, 30).unwrap();
    assert_eq!(cutoff, date(2024, 5, 1));
    assert_eq!(build_query(&cutoff), "after:2024-05-01");
    assert_eq!(category_label(), "SPAM");
    assert_eq!(cutoff_date(1717113600000 + 86_399_999, 0), Some(date(2024, 5, 31)));
    assert_eq!(cutoff_date(-1, 0), None);
    assert_eq!(cutoff_date(1717113600000, 100_000), None);
    assert_eq!(cutoff_date(0, 0), Some(date(1970, 1, 1)));
}

#[test]
fn date_text_is_zero_padded() {
    assert_eq!(format_date(&date(2024, 1, 9)), "2024-01-09");
    assert_eq!(format_date(&date(9999, 12, 31)), "9999-12-31");
}

#[test]
fn counts_stay_sorted_and_merged() {
    let mut counts = DailyCounts::new();
    counts.add(date(2024, 5, 3));
    counts.add(date(2023, 12, 31));
    counts.add(date(2024, 5, 3));
    counts.add(date(2024, 1, 15));
    assert_eq!(
        counts.entries().clone(),
        vec![
            DayCount { date: date(2023, 12, 31), count: 1 },
            DayCount { date: date(2024, 1, 15), count: 1 },
            DayCount { date: date(2024, 5, 3), count: 2 },
        ]
    );
    assert!(!counts.is_empty());
}

#[test]
fn ids_skip_missing() {
    let ids = collect_ids(&vec![ItemRef { id: None }, item("x"), ItemRef { id: None }]);
    assert_eq!(ids, vec!["x".to_string()]);
}

#[test]
fn local_day_is_near_utc_day() {
    let drained = drain(&vec![detail("a", Some(1714557600000))]);
    let entries = drained.entries();
    assert_eq!(entries.len(), 1);
    assert_eq!(entries[0].count, 1);
    let d = entries[0].date;
    assert!(d == date(2024, 4, 30) || d == date(2024, 5, 1) || d == date(2024, 5, 2));
}

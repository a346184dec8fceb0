use starwars::{collect, Fetched, QueryError, Reply, Request, Scan, ScanProgress, StarWarsChar};

fn record(id: &str, is_human: bool) -> StarWarsChar {
    StarWarsChar {
        id: id.to_string(),
        name: format!("character {}", id),
        is_human,
        friends: vec![],
        appears_in: vec![],
        home_planet: None,
        primary_function: None,
    }
}

fn ids(records: &[StarWarsChar]) -> Vec<String> {
    records.iter().map(|record| record.id.clone()).collect()
}

fn fetched() -> Vec<Fetched> {
    vec![
        Fetched::Record(record("1000", true)),
        Fetched::Malformed,
        Fetched::Record(record("2000", false)),
        Fetched::Absent,
        Fetched::Record(record("1002", true)),
        Fetched::Malformed,
        Fetched::Record(record("2001", false)),
    ]
}

#[test]
fn collect_keeps_the_wanted_kind_in_order() {
    let humans = collect(fetched(), true);
    assert_eq!(ids(&humans.records), vec!["1000", "1002"]);
    let droids = collect(fetched(), false);
    assert_eq!(ids(&droids.records), vec!["2000", "2001"]);
}

#[test]
fn collect_counts_the_values_that_are_no_records() {
    assert_eq!(collect(fetched(), true).decode_failures, 2);
    assert_eq!(collect(fetched(), false).decode_failures, 2);
    assert_eq!(collect(vec![Fetched::Absent, Fetched::Absent], true).decode_failures, 0);
    assert_eq!(collect(vec![Fetched::Malformed], false).decode_failures, 1);
}

#[test]
fn collect_of_nothing_is_empty() {
    let report = collect(vec![], true);
    assert!(report.records.is_empty());
    assert_eq!(report.decode_failures, 0);
}

#[test]
fn scan_lists_all_keys_first() {
    assert_eq!(Scan::begin(true).request(), Request::ListKeys("*".to_string()));
    assert_eq!(Scan::begin(false).request(), Request::ListKeys("*".to_string()));
}

#[test]
fn scan_fetches_all_keys_at_once() {
    let keys = vec!["1000".to_string(), "2000".to_string(), "1002".to_string()];
    let scan = match Scan::begin(true).advance(Reply::Keys(keys.clone())) {
        ScanProgress::Pending(next) => next,
        ScanProgress::Done(outcome) => panic!("ended with {:?}", outcome),
    };
    assert_eq!(scan.request(), Request::GetValues(keys));
    let values = vec![
        Fetched::Record(record("1000", true)),
        Fetched::Record(record("2000", false)),
        Fetched::Malformed,
    ];
    match scan.advance(Reply::Values(values)) {
        ScanProgress::Done(Ok(report)) => {
            assert_eq!(ids(&report.records), vec!["1000"]);
            assert_eq!(report.decode_failures, 1);
        }
        other => panic!("ended with {:?}", other),
    }
}

#[test]
fn scan_of_an_empty_store_fetches_nothing() {
    match Scan::begin(false).advance(Reply::Keys(vec![])) {
        ScanProgress::Done(Ok(report)) => {
            assert!(report.records.is_empty());
            assert_eq!(report.decode_failures, 0);
        }
        other => panic!("ended with {:?}", other),
    }
}

#[test]
fn scan_wants_one_value_for_each_key() {
    let keys = vec!["1000".to_string(), "2000".to_string()];
    let scan = match Scan::begin(true).advance(Reply::Keys(keys)) {
        ScanProgress::Pending(next) => next,
        ScanProgress::Done(outcome) => panic!("ended with {:?}", outcome),
    };
    match scan.advance(Reply::Values(vec![Fetched::Record(record("1000", true))])) {
        ScanProgress::Done(outcome) => assert_eq!(outcome, Err(QueryError::StoreUnavailable)),
        ScanProgress::Pending(next) => panic!("asked for {:?}", next.request()),
    }
}

#[test]
fn unreachable_store_ends_the_scan() {
    match Scan::begin(true).advance(Reply::Unavailable) {
        ScanProgress::Done(outcome) => assert_eq!(outcome, Err(QueryError::StoreUnavailable)),
        ScanProgress::Pending(next) => panic!("asked for {:?}", next.request()),
    }
    let scan = match Scan::begin(true).advance(Reply::Keys(vec!["1".to_string()])) {
        ScanProgress::Pending(next) => next,
        ScanProgress::Done(outcome) => panic!("ended with {:?}", outcome),
    };
    match scan.advance(Reply::Unavailable) {
        ScanProgress::Done(outcome) => assert_eq!(outcome, Err(QueryError::StoreUnavailable)),
        ScanProgress::Pending(next) => panic!("asked for {:?}", next.request()),
    }
}

#[test]
fn answer_to_another_call_ends_the_scan() {
    match Scan::begin(true).advance(Reply::Values(vec![])) {
        ScanProgress::Done(outcome) => assert_eq!(outcome, Err(QueryError::StoreUnavailable)),
        ScanProgress::Pending(next) => panic!("asked for {:?}", next.request()),
    }
    let scan = match Scan::begin(true).advance(Reply::Keys(vec!["1".to_string()])) {
        ScanProgress::Pending(next) => next,
        ScanProgress::Done(outcome) => panic!("ended with {:?}", outcome),
    };
    match scan.advance(Reply::Value(Fetched::Absent)) {
        ScanProgress::Done(outcome) => assert_eq!(outcome, Err(QueryError::StoreUnavailable)),
        ScanProgress::Pending(next) => panic!("asked for {:?}", next.request()),
    }
}

use tough::clock::{
    check_before_expiration, check_expiration_ahead, check_expired, check_not_expired,
    record_time, system_time,
};
use tough::datastore::{Datastore, LATEST_KNOWN_TIME_FILE};
use tough::schema::Timestamp;
use tough::{Error, RoleType, UtcTime};

fn record(text: &str) -> Datastore {
    let mut store = Datastore::new();
    store.create(LATEST_KNOWN_TIME_FILE, text.as_bytes().to_vec());
    store
}

fn recorded(store: &Datastore) -> String {
    String::from_utf8(store.get(LATEST_KNOWN_TIME_FILE).unwrap()).unwrap()
}

#[test]
fn instants_are_ordered_by_seconds_then_nanoseconds() {
    let t = UtcTime::new;
    assert!(t(1, 0).before(t(2, 0)));
    assert!(t(1, 999_999_999).before(t(2, 0)));
    assert!(t(1, 5).before(t(1, 6)));
    assert!(!t(1, 5).before(t(1, 5)));
    assert!(!t(2, 0).before(t(1, 999_999_999)));
    assert!(t(-5, 0).before(t(-4, 0)));
    assert!(t(1, 5).at_or_before(t(1, 5)));
    assert!(t(1, 5).at_or_before(t(1, 6)));
    assert!(!t(1, 6).at_or_before(t(1, 5)));
    assert!(!t(2, 0).at_or_before(t(1, 7)));
    assert_eq!(t(3, 4), UtcTime { secs: 3, nanos: 4 });
}

#[test]
fn record_time_writes_the_reading() {
    let mut store = Datastore::new();
    let now = UtcTime::new(1_600_000_000, 0);
    assert_eq!(record_time(&mut store, now), Ok(now));
    assert_eq!(recorded(&store), "\"2020-09-13T12:26:40Z\"");
    // A later reading takes its place.
    let later = UtcTime::new(1_600_000_000, 500_000_000);
    assert_eq!(record_time(&mut store, later), Ok(later));
    assert_eq!(recorded(&store), "\"2020-09-13T12:26:40.500Z\"");
    // The same reading again is accepted.
    assert_eq!(record_time(&mut store, later), Ok(later));
    let precise = UtcTime::new(1_600_000_001, 123_456_789);
    assert_eq!(record_time(&mut store, precise), Ok(precise));
    assert_eq!(recorded(&store), "\"2020-09-13T12:26:41.123456789Z\"");
    assert_eq!(store.names(), [LATEST_KNOWN_TIME_FILE]);
}

#[test]
fn record_time_refuses_a_reading_before_the_record() {
    let mut store = record("\"2020-09-13T12:26:40Z\"");
    let earlier = UtcTime::new(1_599_999_999, 999_999_999);
    assert_eq!(
        record_time(&mut store, earlier),
        Err(Error::SystemTimeSteppedBackward {
            sys_time: earlier,
            latest_known_time: UtcTime::new(1_600_000_000, 0),
        })
    );
    // The record stays as it was.
    assert_eq!(recorded(&store), "\"2020-09-13T12:26:40Z\"");
    // The record may give its time in another zone and with a fraction.
    let mut store = record("\"2020-09-13T14:26:40.25+02:00\"");
    assert_eq!(
        record_time(&mut store, UtcTime::new(1_600_000_000, 249_999_999)),
        Err(Error::SystemTimeSteppedBackward {
            sys_time: UtcTime::new(1_600_000_000, 249_999_999),
            latest_known_time: UtcTime::new(1_600_000_000, 250_000_000),
        })
    );
    assert!(record_time(&mut store, UtcTime::new(1_600_000_000, 250_000_000)).is_ok());
}

#[test]
fn record_that_cannot_be_read_counts_as_none() {
    for text in ["", "yesterday", "1600000000", "\"13 September 2020\"", "{}"] {
        let mut store = record(text);
        let now = UtcTime::new(0, 0);
        assert_eq!(record_time(&mut store, now), Ok(now), "{}", text);
        assert_eq!(recorded(&store), "\"1970-01-01T00:00:00Z\"");
    }
}

#[test]
fn record_time_fails_for_numbers_that_are_no_date() {
    let mut store = record("\"2020-09-13T12:26:40Z\"");
    for now in [UtcTime::new(i64::MAX, 0), UtcTime::new(1_700_000_000, 2_000_000_000)] {
        assert_eq!(
            record_time(&mut store, now),
            Err(Error::DatastoreSerialize { file: "latest_known_time.json" })
        );
        assert_eq!(recorded(&store), "\"2020-09-13T12:26:40Z\"");
    }
}

#[test]
fn system_time_reads_the_clock_and_records_it() {
    let mut store = Datastore::new();
    let first = system_time(&mut store).unwrap();
    // Later than the first of January 2024, earlier than the year 2200.
    assert!(first.secs > 1_704_067_200);
    assert!(first.secs < 7_258_118_400);
    assert!(first.nanos < 2_000_000_000);
    let text = recorded(&store);
    assert!(text.starts_with("\"20") || text.starts_with("\"21"));
    assert!(text.ends_with("Z\""));
    let second = system_time(&mut store).unwrap();
    assert!(first.at_or_before(second));

    let mut store = record("\"2999-01-01T00:00:00Z\"");
    match system_time(&mut store) {
        Err(Error::SystemTimeSteppedBackward {
            sys_time,
            latest_known_time,
        }) => {
            assert!(first.at_or_before(sys_time));
            assert_eq!(latest_known_time, UtcTime::new(32_472_144_000, 0));
        }
        other => panic!("unexpected result: {:?}", other),
    }
}

#[test]
fn load_time_check_allows_the_instant_of_expiration() {
    let expires = UtcTime::new(100, 50);
    let role = RoleType::Snapshot;
    assert_eq!(check_not_expired(UtcTime::new(100, 49), expires, role), Ok(()));
    assert_eq!(check_not_expired(UtcTime::new(100, 50), expires, role), Ok(()));
    assert_eq!(
        check_not_expired(UtcTime::new(100, 51), expires, role),
        Err(Error::ExpiredMetadata { role })
    );
    assert_eq!(
        check_not_expired(UtcTime::new(101, 0), expires, RoleType::Root),
        Err(Error::ExpiredMetadata { role: RoleType::Root })
    );
}

#[test]
fn read_time_check_stops_at_the_instant_of_expiration() {
    let expires = UtcTime::new(100, 50);
    let role = RoleType::Timestamp;
    assert_eq!(check_before_expiration(UtcTime::new(100, 49), expires, role), Ok(()));
    assert_eq!(
        check_before_expiration(UtcTime::new(100, 50), expires, role),
        Err(Error::ExpiredMetadata { role })
    );
    assert_eq!(
        check_before_expiration(UtcTime::new(100, 51), expires, role),
        Err(Error::ExpiredMetadata { role })
    );
}

fn timestamp_that_expires(secs: i64) -> Timestamp {
    Timestamp {
        version: 1,
        expires: UtcTime::new(secs, 0),
        meta: Vec::new(),
    }
}

#[test]
fn check_expired_holds_metadata_against_the_clock() {
    let mut store = Datastore::new();
    assert_eq!(check_expired(&mut store, &timestamp_that_expires(7_258_118_400)), Ok(()));
    assert!(store.contains(LATEST_KNOWN_TIME_FILE));
    assert_eq!(
        check_expired(&mut store, &timestamp_that_expires(1_000_000_000)),
        Err(Error::ExpiredMetadata { role: RoleType::Timestamp })
    );
    let mut store = record("\"2999-01-01T00:00:00Z\"");
    assert!(matches!(
        check_expired(&mut store, &timestamp_that_expires(7_258_118_400)),
        Err(Error::SystemTimeSteppedBackward { .. })
    ));
}

#[test]
fn check_expiration_ahead_names_the_given_role() {
    let mut store = Datastore::new();
    let ahead = UtcTime::new(7_258_118_400, 0);
    let past = UtcTime::new(1_000_000_000, 0);
    assert_eq!(check_expiration_ahead(&mut store, ahead, RoleType::Root), Ok(()));
    assert!(store.contains(LATEST_KNOWN_TIME_FILE));
    assert_eq!(
        check_expiration_ahead(&mut store, past, RoleType::Snapshot),
        Err(Error::ExpiredMetadata { role: RoleType::Snapshot })
    );
}

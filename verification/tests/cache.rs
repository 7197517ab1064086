use lx_tfl_api::cache::{check_arrivals_cache, update_arrivals_cache, Cache};
use lx_tfl_api::config::{load_config, ApiConfig};
use lx_tfl_api::error::Failure;
use lx_tfl_api::fetch::{fetch_arrivals_from_tfl, FetchAction, FetchEvent};
use lx_tfl_api::tfl::{
    fetch_arrivals, Arrival, StatusCode, TflError, Timing, UpstreamAction, UpstreamEvent,
};
use lx_tfl_api::views::{next_bus, next_bus_summary};

fn arrival(id: &str, line: &str, seconds: i64) -> Arrival {
    Arrival {
        id: id.to_string(),
        operation_type: 1,
        vehicle_id: "LTZ1000".to_string(),
        naptan_id: "490008660N".to_string(),
        station_name: "Lewisham Station".to_string(),
        line_id: line.to_lowercase(),
        line_name: line.to_string(),
        platform_name: "K".to_string(),
        direction: "outbound".to_string(),
        bearing: "90".to_string(),
        trip_id: "trip".to_string(),
        base_version: "v1".to_string(),
        destination_naptan_id: "dest".to_string(),
        destination_name: "Catford".to_string(),
        timestamp: "2024-01-01T00:00:00Z".to_string(),
        time_to_station: seconds,
        current_location: "".to_string(),
        towards: "Town".to_string(),
        expected_arrival: "2024-01-01T00:05:00Z".to_string(),
        time_to_live: "2024-01-01T00:06:00Z".to_string(),
        mode_name: "bus".to_string(),
        timing: Timing {
            countdown_server_adjustment: "0".to_string(),
            source: "s".to_string(),
            insert: "i".to_string(),
            read: "r".to_string(),
            sent: "t".to_string(),
            received: "v".to_string(),
        },
    }
}

const SECOND: u64 = 1_000_000_000;

fn config() -> ApiConfig {
    load_config(Some("490008660N".to_string()), None, None)
}

fn first() -> Vec<Arrival> {
    vec![arrival("a", "25", 500), arrival("b", "25", 50)]
}

fn second() -> Vec<Arrival> {
    vec![arrival("c", "N25", 200)]
}

#[test]
fn empty_cache_misses() {
    assert_eq!(check_arrivals_cache(&None, 0, 10_000), None);
    assert_eq!(check_arrivals_cache(&None, u64::MAX, u64::MAX), None);
}

#[test]
fn read_after_replace_is_fresh_within_the_window() {
    let mut slot = None;
    update_arrivals_cache(&mut slot, 1_000, first());
    assert_eq!(check_arrivals_cache(&slot, 1_000, 10_000), Some(first()));
    assert_eq!(check_arrivals_cache(&slot, 5_000, 10_000), Some(first()));
    assert_eq!(check_arrivals_cache(&slot, 10_999, 10_000), Some(first()));
}

#[test]
fn read_misses_once_the_window_has_passed() {
    let mut slot = None;
    update_arrivals_cache(&mut slot, 1_000, first());
    assert_eq!(check_arrivals_cache(&slot, 11_000, 10_000), None);
    assert_eq!(check_arrivals_cache(&slot, 11_001, 10_000), None);
    assert_eq!(check_arrivals_cache(&slot, u64::MAX, 10_000), None);
}

#[test]
fn read_leaves_the_stale_entry_in_place() {
    let mut slot = None;
    update_arrivals_cache(&mut slot, 1_000, first());
    assert_eq!(check_arrivals_cache(&slot, 20_000, 10_000), None);
    assert_eq!(slot, Some(Cache { last_fetch: 1_000, data: first() }));
}

#[test]
fn window_of_zero_is_never_fresh() {
    let mut slot = None;
    update_arrivals_cache(&mut slot, 1_000, first());
    assert_eq!(check_arrivals_cache(&slot, 1_000, 0), None);
    assert_eq!(check_arrivals_cache(&slot, 999, 0), None);
}

#[test]
fn clock_before_the_entry_counts_as_no_time_passed() {
    let mut slot = None;
    update_arrivals_cache(&mut slot, 1_000, first());
    assert_eq!(check_arrivals_cache(&slot, 10, 1), Some(first()));
}

#[test]
fn window_near_the_end_of_time_does_not_overflow() {
    let mut slot = None;
    update_arrivals_cache(&mut slot, u64::MAX - 5, first());
    assert_eq!(check_arrivals_cache(&slot, u64::MAX, 10), Some(first()));
    assert_eq!(check_arrivals_cache(&slot, u64::MAX, 5), None);
}

#[test]
fn replace_overwrites_whole_entry() {
    let mut slot = None;
    update_arrivals_cache(&mut slot, 1_000, first());
    update_arrivals_cache(&mut slot, 2_000, second());
    assert_eq!(slot, Some(Cache { last_fetch: 2_000, data: second() }));
    assert_eq!(check_arrivals_cache(&slot, 11_500, 10_000), Some(second()));
}

#[test]
fn last_replace_wins_in_either_order() {
    let mut one = None;
    update_arrivals_cache(&mut one, 2_000, second());
    update_arrivals_cache(&mut one, 1_000, first());
    assert_eq!(one, Some(Cache { last_fetch: 1_000, data: first() }));

    let mut other = Some(Cache { last_fetch: 7, data: vec![arrival("z", "9", 1)] });
    update_arrivals_cache(&mut other, 1_000, first());
    assert_eq!(other, one);
}

#[test]
fn replace_with_an_empty_list_is_still_an_entry() {
    let mut slot = None;
    update_arrivals_cache(&mut slot, 5, Vec::new());
    assert_eq!(check_arrivals_cache(&slot, 6, 10), Some(Vec::new()));
}

#[test]
fn request_on_empty_cache_calls_upstream() {
    let mut slot = None;
    let action = fetch_arrivals_from_tfl(&mut slot, &config(), 0, FetchEvent::Request);
    assert_eq!(action, FetchAction::CallUpstream);
    assert_eq!(slot, None);
}

#[test]
fn fetched_arrivals_are_stored_and_returned() {
    let mut slot = None;
    let action = fetch_arrivals_from_tfl(&mut slot, &config(), 1_234, FetchEvent::Fetched(Ok(first())));
    assert_eq!(action, FetchAction::Respond(Ok(first())));
    assert_eq!(slot, Some(Cache { last_fetch: 1_234, data: first() }));
}

#[test]
fn failed_fetch_leaves_cache_untouched() {
    let mut slot = Some(Cache { last_fetch: 1_000, data: first() });
    let action = fetch_arrivals_from_tfl(
        &mut slot,
        &config(),
        50_000,
        FetchEvent::Fetched(Err(TflError::ParseError("bad".to_string()))),
    );
    assert_eq!(
        action,
        FetchAction::Respond(Err(Failure::upstream(TflError::ParseError("bad".to_string()))))
    );
    assert_eq!(slot, Some(Cache { last_fetch: 1_000, data: first() }));

    let mut empty = None;
    let action = fetch_arrivals_from_tfl(
        &mut empty,
        &config(),
        50_000,
        FetchEvent::Fetched(Err(TflError::Unreachable("timeout".to_string()))),
    );
    assert!(matches!(action, FetchAction::Respond(Err(_))));
    assert_eq!(empty, None);
}

#[test]
fn failed_refetch_does_not_serve_stale_data() {
    let mut slot = Some(Cache { last_fetch: SECOND, data: first() });
    let action = fetch_arrivals_from_tfl(&mut slot, &config(), 50 * SECOND, FetchEvent::Request);
    assert_eq!(action, FetchAction::CallUpstream);
    let action = fetch_arrivals_from_tfl(
        &mut slot,
        &config(),
        51 * SECOND,
        FetchEvent::Fetched(Err(TflError::Unreachable("timeout".to_string()))),
    );
    match action {
        FetchAction::Respond(Err(failure)) => assert_eq!(failure.status, 502),
        other => panic!("unexpected action {:?}", other),
    }
}

fn serve(slot: &mut Option<Cache>, now: u64, upstream: &[UpstreamEvent], calls: &mut u32) -> Result<Vec<Arrival>, Failure> {
    let config = config();
    match fetch_arrivals_from_tfl(slot, &config, now, FetchEvent::Request) {
        FetchAction::Respond(outcome) => outcome,
        FetchAction::CallUpstream => {
            *calls += 1;
            let mut action = fetch_arrivals(&config, UpstreamEvent::Start);
            let mut script = upstream.iter();
            let outcome = loop {
                match action {
                    UpstreamAction::Finish(outcome) => break outcome,
                    _ => {
                        let event = match script.next().unwrap() {
                            UpstreamEvent::Start => UpstreamEvent::Start,
                            UpstreamEvent::TransportFailed(c) => UpstreamEvent::TransportFailed(c.clone()),
                            UpstreamEvent::Responded(s) => UpstreamEvent::Responded(*s),
                            UpstreamEvent::ErrorBody(s, b) => UpstreamEvent::ErrorBody(*s, b.clone()),
                            UpstreamEvent::Decoded(l) => UpstreamEvent::Decoded(l.clone()),
                            UpstreamEvent::DecodeFailed(c) => UpstreamEvent::DecodeFailed(c.clone()),
                        };
                        action = fetch_arrivals(&config, event);
                    }
                }
            };
            match fetch_arrivals_from_tfl(slot, &config, now, FetchEvent::Fetched(outcome)) {
                FetchAction::Respond(outcome) => outcome,
                FetchAction::CallUpstream => panic!("a finished fetch asks for no second call"),
            }
        }
    }
}

#[test]
fn second_request_within_window_makes_no_upstream_call() {
    let mut slot = None;
    let mut calls = 0;
    let ok = [
        UpstreamEvent::Responded(StatusCode::from_u16(200).unwrap()),
        UpstreamEvent::Decoded(first()),
    ];
    assert_eq!(serve(&mut slot, SECOND, &ok, &mut calls), Ok(first()));
    assert_eq!(calls, 1);
    assert_eq!(serve(&mut slot, SECOND + 1, &ok, &mut calls), Ok(first()));
    assert_eq!(serve(&mut slot, 11 * SECOND - 1, &ok, &mut calls), Ok(first()));
    assert_eq!(calls, 1);
    let later = [
        UpstreamEvent::Responded(StatusCode::from_u16(200).unwrap()),
        UpstreamEvent::Decoded(second()),
    ];
    assert_eq!(serve(&mut slot, 11 * SECOND, &later, &mut calls), Ok(second()));
    assert_eq!(calls, 2);
    assert_eq!(slot, Some(Cache { last_fetch: 11 * SECOND, data: second() }));
}

#[test]
fn upstream_503_reaches_both_views_as_the_same_failure() {
    let mut slot = None;
    let mut calls = 0;
    let refused = [
        UpstreamEvent::Responded(StatusCode::from_u16(503).unwrap()),
        UpstreamEvent::ErrorBody(StatusCode::from_u16(503).unwrap(), Some("maintenance".to_string())),
    ];
    let plain = next_bus(serve(&mut slot, 0, &refused, &mut calls), Some("25"), &config()).unwrap_err();
    assert_eq!(plain.status, 502);
    assert_eq!(plain.body.error, "TFL_UPSTREAM_ERROR");
    assert_eq!(plain.body.message, "TfL returned HTTP 503 Service Unavailable");
    assert_eq!(plain.body.details, Some("maintenance".to_string()));
    let summary =
        next_bus_summary(serve(&mut slot, 1, &refused, &mut calls), Some("25"), None, &config(), "now".to_string()).unwrap_err();
    assert_eq!(summary, plain);
    assert_eq!(calls, 2);
    assert_eq!(slot, None);
}

#[test]
fn request_is_served_from_a_fresh_cache_and_not_from_a_stale_one() {
    let mut slot = Some(Cache { last_fetch: 3 * SECOND, data: first() });
    let action = fetch_arrivals_from_tfl(&mut slot, &config(), 13 * SECOND - 1, FetchEvent::Request);
    assert_eq!(action, FetchAction::Respond(Ok(first())));
    let action = fetch_arrivals_from_tfl(&mut slot, &config(), 13 * SECOND, FetchEvent::Request);
    assert_eq!(action, FetchAction::CallUpstream);
    assert_eq!(slot, Some(Cache { last_fetch: 3 * SECOND, data: first() }));
}

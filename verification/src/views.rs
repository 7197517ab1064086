//! The views served from a list of arrivals: the route filter, the order by
//! imminence, and the summary.

use vstd::prelude::*;
use vstd::string::*;
use crate::config::ApiConfig;
use crate::error::{no_arrivals_text, Failure, FailureView, STATUS_NO_CONTENT};
use crate::text::{
    contains_text, normalize, normalized, optional_slice_text, slice_texts, split, split_on,
    string_texts,
};
use crate::tfl::Arrival;

verus! {

/// The route names that a comma-separated filter asks for, each in the form
/// in which names are compared.
pub open spec fn requested_routes(routes: Seq<char>) -> Seq<Seq<char>> {
    let pieces = split_on(routes, ',');
    Seq::new(pieces.len(), |i: int| normalized(pieces[i]))
}

/// Whether a line name, trimmed and lower-cased, is one of the route names
/// that the filter asks for.
pub open spec fn is_requested(line_name: Seq<char>, routes: Seq<char>) -> bool {
    requested_routes(routes).contains(normalized(line_name))
}

/// The arrivals whose line is asked for, in the order in which they stand.
pub open spec fn on_routes(arrivals: Seq<Arrival>, routes: Seq<char>) -> Seq<Arrival> {
    arrivals.filter(|a: Arrival| is_requested(a.line_name@, routes))
}

/// The route names of a comma-separated filter, trimmed and lower-cased.
pub fn route_tokens(routes: &str) -> (tokens: Vec<String>)
    ensures
        string_texts(tokens@) == requested_routes(routes@),
{
    let pieces = split(routes, ',');
    let mut tokens: Vec<String> = Vec::new();
    let mut i: usize = 0;
    while i < pieces.len()
        invariant
            i <= pieces.len(),
            slice_texts(pieces@) == split_on(routes@, ','),
            tokens@.len() == i,
            forall|k: int| 0 <= k < i ==> tokens@[k]@ == normalized(#[trigger] pieces@[k]@),
        decreases pieces.len() - i,
    {
        tokens.push(normalize(pieces[i]));
        i += 1;
    }
    assert forall|k: int| 0 <= k < tokens@.len() implies string_texts(tokens@)[k]
        == requested_routes(routes@)[k] by {
        assert(slice_texts(pieces@)[k] == pieces@[k]@);
    }
    assert(string_texts(tokens@) =~= requested_routes(routes@));
    tokens
}

/// The arrivals whose name is one of those wanted, in the order in which
/// they stand. `names` holds one name for each arrival, in the same order.
pub open spec fn kept_by_name(
    arrivals: Seq<Arrival>,
    names: Seq<Seq<char>>,
    wanted: Seq<Seq<char>>,
) -> Seq<Arrival>
    recommends
        names.len() == arrivals.len(),
    decreases arrivals.len(),
{
    if arrivals.len() == 0 {
        arrivals
    } else {
        let before = kept_by_name(arrivals.drop_last(), names.drop_last(), wanted);
        if wanted.contains(names.last()) {
            before.push(arrivals.last())
        } else {
            before
        }
    }
}

/// Keeping by name is the route filter, where the names are the line names
/// in the form in which they are compared, and the names wanted are those
/// that the filter asks for.
pub proof fn lemma_kept_by_name_on_routes(
    arrivals: Seq<Arrival>,
    names: Seq<Seq<char>>,
    routes: Seq<char>,
)
    requires
        names.len() == arrivals.len(),
        forall|i: int| 0 <= i < arrivals.len() ==> names[i] == normalized(arrivals[i].line_name@),
    ensures
        kept_by_name(arrivals, names, requested_routes(routes)) == on_routes(arrivals, routes),
    decreases arrivals.len(),
{
    let asked = |a: Arrival| is_requested(a.line_name@, routes);
    if arrivals.len() == 0 {
        arrivals.lemma_filter_len(asked);
        assert(on_routes(arrivals, routes) =~= arrivals);
    } else {
        lemma_kept_by_name_on_routes(arrivals.drop_last(), names.drop_last(), routes);
        arrivals.drop_last().lemma_filter_push(arrivals.last(), asked);
        assert(arrivals.drop_last().push(arrivals.last()) =~= arrivals);
    }
}

/// Keeps the arrivals whose name is one of `wanted`, in their order.
/// `names` holds the name of each arrival, in the same order; a name is
/// wanted when it is the very text of one of `wanted`.
pub fn keep_named(arrivals: Vec<Arrival>, names: &Vec<String>, wanted: &Vec<String>) -> (kept: Vec<
    Arrival,
>)
    requires
        names@.len() == arrivals@.len(),
    ensures
        kept@ == kept_by_name(arrivals@, string_texts(names@), string_texts(wanted@)),
{
    let ghost all = arrivals@;
    let ghost all_names = string_texts(names@);
    let mut kept: Vec<Arrival> = Vec::new();
    let mut i: usize = 0;
    assert(all.len() == names.len());
    for arrival in it: arrivals
        invariant
            it.seq() == all,
            i == it.index(),
            names@.len() == all.len(),
            all.len() <= usize::MAX,
            all_names == string_texts(names@),
            kept@ == kept_by_name(all.take(i as int), all_names.take(i as int), string_texts(wanted@)),
    {
        proof {
            assert(all.take(i + 1).drop_last() =~= all.take(i as int));
            assert(all_names.take(i + 1).drop_last() =~= all_names.take(i as int));
            assert(all_names.take(i + 1).last() == names@[i as int]@);
        }
        if contains_text(wanted, &names[i]) {
            kept.push(arrival);
        }
        i += 1;
    }
    proof {
        assert(all.take(all.len() as int) =~= all);
        assert(all_names.take(all.len() as int) =~= all_names);
    }
    kept
}

/// The line name of each arrival, in the form in which names are compared.
pub fn line_names(arrivals: &Vec<Arrival>) -> (names: Vec<String>)
    ensures
        names@.len() == arrivals@.len(),
        forall|i: int|
            0 <= i < arrivals@.len() ==> (#[trigger] names@[i])@ == normalized(arrivals@[i].line_name@),
{
    let mut names: Vec<String> = Vec::new();
    let mut i: usize = 0;
    while i < arrivals.len()
        invariant
            i <= arrivals.len(),
            names@.len() == i,
            forall|k: int| 0 <= k < i ==> (#[trigger] names@[k])@ == normalized(arrivals@[k].line_name@),
        decreases arrivals.len() - i,
    {
        names.push(normalize(arrivals[i].line_name.as_str()));
        i += 1;
    }
    names
}

/// Keeps the arrivals whose line name is one of the comma-separated route
/// names in `routes`. Names are compared trimmed and without regard to
/// case; the arrivals kept stay in their order.
pub fn filter_arrivals_by_route(arrivals: Vec<Arrival>, routes: &str) -> (kept: Vec<Arrival>)
    ensures
        kept@ == on_routes(arrivals@, routes@),
        forall|i: int| 0 <= i < kept@.len() ==> is_requested(#[trigger] kept@[i].line_name@, routes@),
{
    let tokens = route_tokens(routes);
    let names = line_names(&arrivals);
    proof {
        lemma_kept_by_name_on_routes(arrivals@, string_texts(names@), routes@);
        assert forall|i: int| 0 <= i < on_routes(arrivals@, routes@).len() implies is_requested(
            #[trigger] on_routes(arrivals@, routes@)[i].line_name@,
            routes@,
        ) by {
            arrivals@.lemma_filter_pred(|a: Arrival| is_requested(a.line_name@, routes@), i);
        }
    }
    keep_named(arrivals, &names, &tokens)
}

/// Whether a list runs from the soonest arrival to the latest.
pub open spec fn is_soonest_first(arrivals: Seq<Arrival>) -> bool {
    forall|i: int, j: int|
        0 <= i <= j < arrivals.len() ==> arrivals[i].time_to_station <= arrivals[j].time_to_station
}

/// The arrivals of a list that are due in exactly `seconds`, in the order in
/// which the list holds them.
pub open spec fn due_in(arrivals: Seq<Arrival>, seconds: i64) -> Seq<Arrival> {
    arrivals.filter(|a: Arrival| a.time_to_station == seconds)
}

/// A sorted list with one more arrival, which goes behind every arrival that
/// is due no later than it.
pub open spec fn placed(sorted: Seq<Arrival>, arrival: Arrival) -> Seq<Arrival>
    decreases sorted.len(),
{
    if sorted.len() > 0 && sorted.last().time_to_station > arrival.time_to_station {
        placed(sorted.drop_last(), arrival).push(sorted.last())
    } else {
        sorted.push(arrival)
    }
}

/// The arrivals in order of time to station, soonest first; arrivals due at
/// the same time keep the order they had.
pub open spec fn soonest_first(arrivals: Seq<Arrival>) -> Seq<Arrival>
    decreases arrivals.len(),
{
    if arrivals.len() == 0 {
        arrivals
    } else {
        placed(soonest_first(arrivals.drop_last()), arrivals.last())
    }
}

/// Where `placed` puts an arrival: at the index behind which every arrival is
/// due later, and before which the nearest is due no later.
pub proof fn lemma_placed_at(sorted: Seq<Arrival>, arrival: Arrival) -> (at: int)
    ensures
        0 <= at <= sorted.len(),
        placed(sorted, arrival) == sorted.insert(at, arrival),
        forall|i: int| at <= i < sorted.len() ==> sorted[i].time_to_station > arrival.time_to_station,
        at > 0 ==> sorted[at - 1].time_to_station <= arrival.time_to_station,
    decreases sorted.len(),
{
    if sorted.len() > 0 && sorted.last().time_to_station > arrival.time_to_station {
        let at = lemma_placed_at(sorted.drop_last(), arrival);
        assert(sorted.drop_last().insert(at, arrival).push(sorted.last()) =~= sorted.insert(at, arrival));
        assert forall|i: int| at <= i < sorted.len() implies sorted[i].time_to_station
            > arrival.time_to_station by {
            if i < sorted.len() - 1 {
                assert(sorted.drop_last()[i] == sorted[i]);
            }
        }
        assert(at > 0 ==> sorted.drop_last()[at - 1] == sorted[at - 1]);
        at
    } else {
        assert(sorted.push(arrival) =~= sorted.insert(sorted.len() as int, arrival));
        sorted.len() as int
    }
}

/// Placing an arrival keeps a sorted list sorted.
pub proof fn lemma_placed_sorted(sorted: Seq<Arrival>, arrival: Arrival)
    requires
        is_soonest_first(sorted),
    ensures
        is_soonest_first(placed(sorted, arrival)),
{
    let at = lemma_placed_at(sorted, arrival);
    let out = sorted.insert(at, arrival);
    assert forall|i: int, j: int| 0 <= i <= j < out.len() implies out[i].time_to_station
        <= out[j].time_to_station by {
        if i < at && j == at {
            assert(sorted[i].time_to_station <= sorted[at - 1].time_to_station);
        } else if i < at && j > at {
            assert(sorted[i].time_to_station <= sorted[j - 1].time_to_station);
        } else if i == at && j > at {
            assert(sorted[j - 1].time_to_station > arrival.time_to_station);
        } else if i > at {
            assert(sorted[i - 1].time_to_station <= sorted[j - 1].time_to_station);
        }
    }
}

/// Placing an arrival puts it last among those due at its time, and leaves
/// the arrivals due at any other time as they were.
pub proof fn lemma_placed_due_in(sorted: Seq<Arrival>, arrival: Arrival, seconds: i64)
    ensures
        due_in(placed(sorted, arrival), seconds) == if arrival.time_to_station == seconds {
            due_in(sorted, seconds).push(arrival)
        } else {
            due_in(sorted, seconds)
        },
    decreases sorted.len(),
{
    let due = |a: Arrival| a.time_to_station == seconds;
    if sorted.len() > 0 && sorted.last().time_to_station > arrival.time_to_station {
        let front = sorted.drop_last();
        lemma_placed_due_in(front, arrival, seconds);
        placed(front, arrival).lemma_filter_push(sorted.last(), due);
        front.lemma_filter_push(sorted.last(), due);
        assert(front.push(sorted.last()) =~= sorted);
    } else {
        sorted.lemma_filter_push(arrival, due);
    }
}

/// The order by imminence is sorted.
pub proof fn lemma_soonest_first_sorted(arrivals: Seq<Arrival>)
    ensures
        is_soonest_first(soonest_first(arrivals)),
    decreases arrivals.len(),
{
    if arrivals.len() > 0 {
        lemma_soonest_first_sorted(arrivals.drop_last());
        lemma_placed_sorted(soonest_first(arrivals.drop_last()), arrivals.last());
    }
}

/// The order by imminence is stable: the arrivals due at any one time are
/// the same before and after, and in the same order. So nothing is lost or
/// added either.
pub proof fn lemma_soonest_first_stable(arrivals: Seq<Arrival>, seconds: i64)
    ensures
        due_in(soonest_first(arrivals), seconds) == due_in(arrivals, seconds),
    decreases arrivals.len(),
{
    if arrivals.len() > 0 {
        let front = arrivals.drop_last();
        lemma_soonest_first_stable(front, seconds);
        lemma_placed_due_in(soonest_first(front), arrivals.last(), seconds);
        front.lemma_filter_push(arrivals.last(), |a: Arrival| a.time_to_station == seconds);
        assert(front.push(arrivals.last()) =~= arrivals);
    }
}

/// The order by imminence holds the arrivals it was given, as many as there
/// were.
pub proof fn lemma_soonest_first_keeps(arrivals: Seq<Arrival>)
    ensures
        soonest_first(arrivals).len() == arrivals.len(),
        forall|i: int|
            0 <= i < arrivals.len() ==> arrivals.contains(#[trigger] soonest_first(arrivals)[i]),
    decreases arrivals.len(),
{
    if arrivals.len() > 0 {
        let front = arrivals.drop_last();
        let sorted = soonest_first(front);
        lemma_soonest_first_keeps(front);
        let at = lemma_placed_at(sorted, arrivals.last());
        let out = sorted.insert(at, arrivals.last());
        assert forall|i: int| 0 <= i < arrivals.len() implies arrivals.contains(#[trigger] out[i]) by {
            if i == at {
                assert(arrivals[arrivals.len() - 1] == out[i]);
            } else {
                let k = if i < at {
                    i
                } else {
                    i - 1
                };
                assert(out[i] == sorted[k]);
                assert(front.contains(sorted[k]));
                let j = choose|j: int| 0 <= j < front.len() && front[j] == sorted[k];
                assert(arrivals[j] == out[i]);
            }
        }
    }
}

/// An arrival of a list is among those of the list that are due at its time.
proof fn lemma_due_in_holds(arrivals: Seq<Arrival>, i: int)
    requires
        0 <= i < arrivals.len(),
    ensures
        due_in(arrivals, arrivals[i].time_to_station).len() > 0,
{
    let seconds = arrivals[i].time_to_station;
    arrivals.lemma_filter_contains(|a: Arrival| a.time_to_station == seconds, i);
}

/// Where some arrival of a list is due in `seconds`, the list holds one.
proof fn lemma_due_in_found(arrivals: Seq<Arrival>, seconds: i64) -> (i: int)
    requires
        due_in(arrivals, seconds).len() > 0,
    ensures
        0 <= i < arrivals.len(),
        arrivals[i].time_to_station == seconds,
{
    let due = |a: Arrival| a.time_to_station == seconds;
    let found = due_in(arrivals, seconds)[0];
    arrivals.lemma_filter_pred(due, 0);
    assert(arrivals.filter(due).contains(found));
    arrivals.lemma_filter_contains_rev(due, found);
    choose|i: int| 0 <= i < arrivals.len() && arrivals[i] == found
}

/// What is due at one time in a list that is not empty, told from its last
/// arrival and the arrivals before it.
proof fn lemma_due_in_last(arrivals: Seq<Arrival>, seconds: i64)
    requires
        arrivals.len() > 0,
    ensures
        due_in(arrivals, seconds) == if arrivals.last().time_to_station == seconds {
            due_in(arrivals.drop_last(), seconds).push(arrivals.last())
        } else {
            due_in(arrivals.drop_last(), seconds)
        },
{
    arrivals.drop_last().lemma_filter_push(arrivals.last(), |a: Arrival| a.time_to_station == seconds);
    assert(arrivals.drop_last().push(arrivals.last()) =~= arrivals);
}

/// Two lists that both run soonest first, and in which the same arrivals are
/// due at every time and in the same order, are one and the same list.
pub proof fn lemma_stable_order_unique(one: Seq<Arrival>, other: Seq<Arrival>)
    requires
        is_soonest_first(one),
        is_soonest_first(other),
        forall|seconds: i64| #[trigger] due_in(one, seconds) == due_in(other, seconds),
    ensures
        one == other,
    decreases one.len(),
{
    if one.len() == 0 {
        if other.len() > 0 {
            lemma_due_in_holds(other, 0);
            let i = lemma_due_in_found(one, other[0].time_to_station);
        }
        assert(one =~= other);
    } else {
        let latest = one.last().time_to_station;
        lemma_due_in_holds(one, one.len() - 1);
        let j = lemma_due_in_found(other, latest);
        lemma_due_in_holds(other, other.len() - 1);
        let i = lemma_due_in_found(one, other.last().time_to_station);
        assert(other.last().time_to_station == latest);
        lemma_due_in_last(one, latest);
        lemma_due_in_last(other, latest);
        assert(due_in(one, latest).last() == one.last());
        assert(due_in(other, latest).last() == other.last());
        assert(one.last() == other.last());
        assert forall|seconds: i64| #[trigger]
            due_in(one.drop_last(), seconds) == due_in(other.drop_last(), seconds) by {
            lemma_due_in_last(one, seconds);
            lemma_due_in_last(other, seconds);
            if seconds == latest {
                assert(due_in(one.drop_last(), seconds) == due_in(one, seconds).drop_last());
                assert(due_in(other.drop_last(), seconds) == due_in(other, seconds).drop_last());
            }
        }
        lemma_stable_order_unique(one.drop_last(), other.drop_last());
        assert(one =~= one.drop_last().push(one.last()));
        assert(other =~= other.drop_last().push(other.last()));
    }
}

/// Only one order of a list is both sorted and stable: any list that runs
/// soonest first, and in which the arrivals due at each time are those of
/// `arrivals` in their order, is `soonest_first(arrivals)`.
pub proof fn lemma_soonest_first_unique(arrivals: Seq<Arrival>, sorted: Seq<Arrival>)
    requires
        is_soonest_first(sorted),
        forall|seconds: i64| #[trigger] due_in(sorted, seconds) == due_in(arrivals, seconds),
    ensures
        sorted == soonest_first(arrivals),
{
    lemma_soonest_first_sorted(arrivals);
    assert forall|seconds: i64| #[trigger]
        due_in(sorted, seconds) == due_in(soonest_first(arrivals), seconds) by {
        lemma_soonest_first_stable(arrivals, seconds);
    }
    lemma_stable_order_unique(sorted, soonest_first(arrivals));
}

/// Sorts arrivals by time to station, soonest first. The sort is stable:
/// arrivals due at the same time keep their relative order.
pub fn sort_by_time_to_station(arrivals: Vec<Arrival>) -> (sorted: Vec<Arrival>)
    ensures
        sorted@ == soonest_first(arrivals@),
        is_soonest_first(sorted@),
        forall|seconds: i64| #[trigger] due_in(sorted@, seconds) == due_in(arrivals@, seconds),
{
    let ghost all = arrivals@;
    let mut sorted: Vec<Arrival> = Vec::new();
    assert(all.take(0) =~= Seq::<Arrival>::empty());
    for arrival in it: arrivals
        invariant
            it.seq() == all,
            sorted@ == soonest_first(all.take(it.index() as int)),
    {
        let mut at: usize = sorted.len();
        while at > 0 && sorted[at - 1].time_to_station > arrival.time_to_station
            invariant
                at <= sorted.len(),
                forall|i: int|
                    at <= i < sorted.len() ==> sorted@[i].time_to_station > arrival.time_to_station,
            decreases at,
        {
            at -= 1;
        }
        proof {
            let found = lemma_placed_at(sorted@, arrival);
            if found < at {
                assert(sorted@[at - 1].time_to_station <= arrival.time_to_station);
            }
            assert(found == at);
            assert(all.take(it.index() + 1).drop_last() =~= all.take(it.index() as int));
        }
        sorted.insert(at, arrival);
    }
    proof {
        assert(all.take(all.len() as int) =~= all);
        lemma_soonest_first_sorted(all);
        assert forall|seconds: i64| #[trigger] due_in(sorted@, seconds) == due_in(all, seconds) by {
            lemma_soonest_first_stable(all, seconds);
        }
    }
    sorted
}

/// How many services a summary shows when the request names no limit.
pub const DEFAULT_LIMIT: usize = 100;

/// The stop name of a summary that has no arrival to take one from.
pub open spec fn unknown_stop_name() -> Seq<char> {
    "NA"@
}

/// The arrivals that a request asks for: those on the routes of its filter,
/// or all of them when it has none.
pub open spec fn selected(arrivals: Seq<Arrival>, routes: Option<Seq<char>>) -> Seq<Arrival> {
    match routes {
        Some(r) => on_routes(arrivals, r),
        None => arrivals,
    }
}

/// The arrivals that a request is shown: those it asks for, soonest first.
pub open spec fn shown(arrivals: Seq<Arrival>, routes: Option<Seq<char>>) -> Seq<Arrival> {
    soonest_first(selected(arrivals, routes))
}

/// Whole minutes until an arrival that is `seconds` away: the seconds
/// divided by sixty and rounded down, and zero where that would be negative.
pub open spec fn minutes_until(seconds: i64) -> int {
    if seconds / 60 < 0 {
        0
    } else {
        seconds / 60
    }
}

/// One service of a summary.
#[derive(Debug, PartialEq, Eq)]
pub struct SummaryBus {
    /// The route name.
    pub route: String,
    /// Where the vehicle is going.
    pub destination: String,
    /// Whole minutes until it arrives, never negative.
    pub minutes: i64,
}

/// What a `SummaryBus` holds, as plain values.
pub ghost struct SummaryBusView {
    pub route: Seq<char>,
    pub destination: Seq<char>,
    pub minutes: int,
}

impl View for SummaryBus {
    type V = SummaryBusView;

    open spec fn view(&self) -> SummaryBusView {
        SummaryBusView { route: self.route@, destination: self.destination@, minutes: self.minutes as int }
    }
}

/// The compact view of a stop: the stop, when it was last heard of, and the
/// next services.
#[derive(Debug, PartialEq, Eq)]
pub struct SummaryResponse {
    pub stop_id: String,
    pub stop_name: String,
    pub last_updated: String,
    pub services: Vec<SummaryBus>,
}

/// What a `SummaryResponse` holds, as plain values.
pub ghost struct SummaryView {
    pub stop_id: Seq<char>,
    pub stop_name: Seq<char>,
    pub last_updated: Seq<char>,
    pub services: Seq<SummaryBusView>,
}

impl View for SummaryResponse {
    type V = SummaryView;

    open spec fn view(&self) -> SummaryView {
        SummaryView {
            stop_id: self.stop_id@,
            stop_name: self.stop_name@,
            last_updated: self.last_updated@,
            services: Seq::new(self.services@.len(), |i: int| self.services@[i]@),
        }
    }
}

/// The service that a summary shows for an arrival.
pub open spec fn service_of(arrival: Arrival) -> SummaryBusView {
    SummaryBusView {
        route: arrival.line_name@,
        destination: arrival.destination_name@,
        minutes: minutes_until(arrival.time_to_station),
    }
}

/// The services of a summary: one for each of the first `limit` arrivals, or
/// for all of them where there are fewer.
pub open spec fn services_of(arrivals: Seq<Arrival>, limit: nat) -> Seq<SummaryBusView> {
    Seq::new(if limit < arrivals.len() { limit } else { arrivals.len() }, |i: int| service_of(arrivals[i]))
}

/// The limit of a request: its own, or the default.
pub open spec fn limit_of(limit: Option<usize>) -> nat {
    match limit {
        Some(n) => n as nat,
        None => DEFAULT_LIMIT as nat,
    }
}

/// The summary of the arrivals that a request is shown. With at least one
/// arrival, the stop, its name and the time of the last update are those of
/// the soonest arrival. With none, the stop is the configured one, its name
/// is unknown, the last update is `now`, and there is no service.
pub open spec fn summary_of(
    arrivals: Seq<Arrival>,
    limit: nat,
    stop_id: Seq<char>,
    now: Seq<char>,
) -> SummaryView {
    if arrivals.len() == 0 {
        SummaryView {
            stop_id,
            stop_name: unknown_stop_name(),
            last_updated: now,
            services: Seq::empty(),
        }
    } else {
        SummaryView {
            stop_id: arrivals[0].naptan_id@,
            stop_name: arrivals[0].station_name@,
            last_updated: arrivals[0].timestamp@,
            services: services_of(arrivals, limit),
        }
    }
}

/// Whole minutes until an arrival that is `seconds` away, rounded down and
/// never negative.
pub fn minutes_until_arrival(seconds: i64) -> (minutes: i64)
    ensures
        minutes == minutes_until(seconds),
        minutes >= 0,
        seconds >= 0 ==> minutes == seconds / 60,
        seconds < 0 ==> minutes == 0,
{
    if seconds < 0 {
        0
    } else {
        seconds / 60
    }
}

/// The arrivals that a request asks for: those on the routes of `routes`, or
/// all of them when there is no filter.
pub fn select_arrivals(arrivals: Vec<Arrival>, routes: Option<&str>) -> (kept: Vec<Arrival>)
    ensures
        kept@ == selected(arrivals@, optional_slice_text(routes)),
{
    match routes {
        Some(r) => filter_arrivals_by_route(arrivals, r),
        None => arrivals,
    }
}

/// The plain view: the arrivals that the request asks for, soonest first.
///
/// A fetch that failed is handed on as it is. When no arrival is left, the
/// outcome is the failure that names the configured stop and the filter.
pub fn next_bus(
    fetched: Result<Vec<Arrival>, Failure>,
    routes: Option<&str>,
    config: &ApiConfig,
) -> (outcome: Result<Vec<Arrival>, Failure>)
    ensures
        match fetched {
            Err(failure) => outcome == Err::<Vec<Arrival>, Failure>(failure),
            Ok(arrivals) => if selected(arrivals@, optional_slice_text(routes)).len() == 0 {
                &&& outcome matches Err(failure)
                &&& failure@ == (FailureView {
                    status: STATUS_NO_CONTENT,
                    body: no_arrivals_text(config.stop_id@, optional_slice_text(routes)),
                })
            } else {
                &&& outcome matches Ok(list)
                &&& list@ == shown(arrivals@, optional_slice_text(routes))
            },
        },
        outcome matches Ok(list) ==> {
            &&& list@.len() > 0
            &&& is_soonest_first(list@)
            &&& routes matches Some(r) ==> forall|i: int|
                0 <= i < list@.len() ==> is_requested(#[trigger] list@[i].line_name@, r@)
        },
{
    match fetched {
        Err(failure) => Err(failure),
        Ok(arrivals) => {
            let kept = select_arrivals(arrivals, routes);
            if kept.len() == 0 {
                Err(Failure::no_arrivals(config.stop_id.as_str(), routes))
            } else {
                let list = sort_by_time_to_station(kept);
                proof {
                    lemma_soonest_first_keeps(kept@);
                    if let Some(r) = routes {
                        assert forall|i: int| 0 <= i < list@.len() implies is_requested(
                            #[trigger] list@[i].line_name@,
                            r@,
                        ) by {
                            assert(kept@.contains(list@[i]));
                        }
                    }
                }
                Ok(list)
            }
        },
    }
}

/// The summary without any arrival: the stop is `stop_id`, and the last
/// update is `now`.
fn empty_summary(stop_id: &str, now: String) -> (summary: SummaryResponse)
    ensures
        summary@ == summary_of(Seq::empty(), 0, stop_id@, now@),
{
    let summary = SummaryResponse {
        stop_id: String::from_str(stop_id),
        stop_name: String::from_str("NA"),
        last_updated: now,
        services: Vec::new(),
    };
    assert(summary@.services =~= Seq::empty());
    summary
}

/// The summary of arrivals that stand soonest first, at most `limit` of
/// them as services.
fn first_services(arrivals: &Vec<Arrival>, limit: usize) -> (summary: SummaryResponse)
    requires
        arrivals@.len() > 0,
    ensures
        forall|stop_id: Seq<char>, now: Seq<char>|
            summary@ == #[trigger] summary_of(arrivals@, limit as nat, stop_id, now),
{
    let count = if limit < arrivals.len() {
        limit
    } else {
        arrivals.len()
    };
    let mut services: Vec<SummaryBus> = Vec::new();
    let mut i: usize = 0;
    while i < count
        invariant
            i <= count <= arrivals.len(),
            services@.len() == i,
            forall|k: int| 0 <= k < i ==> (#[trigger] services@[k])@ == service_of(arrivals@[k]),
        decreases count - i,
    {
        let arrival = &arrivals[i];
        services.push(
            SummaryBus {
                route: arrival.line_name.clone(),
                destination: arrival.destination_name.clone(),
                minutes: minutes_until_arrival(arrival.time_to_station),
            },
        );
        i += 1;
    }
    let first = &arrivals[0];
    let summary = SummaryResponse {
        stop_id: first.naptan_id.clone(),
        stop_name: first.station_name.clone(),
        last_updated: first.timestamp.clone(),
        services,
    };
    assert(summary@.services =~= services_of(arrivals@, limit as nat));
    summary
}

/// The summary of `arrivals` for a request with this filter and limit, made
/// at the instant that `now` spells out. The limit is 100 where the request
/// names none.
pub fn build_summary(
    arrivals: Vec<Arrival>,
    routes: Option<&str>,
    limit: Option<usize>,
    stop_id: &str,
    now: String,
) -> (summary: SummaryResponse)
    ensures
        summary@ == summary_of(
            shown(arrivals@, optional_slice_text(routes)),
            limit_of(limit),
            stop_id@,
            now@,
        ),
{
    let kept = sort_by_time_to_station(select_arrivals(arrivals, routes));
    let most = match limit {
        Some(n) => n,
        None => DEFAULT_LIMIT,
    };
    if kept.len() == 0 {
        empty_summary(stop_id, now)
    } else {
        first_services(&kept, most)
    }
}

/// The summary view: the stop and the next services of the arrivals that
/// the request asks for, made at the instant that `now` spells out.
///
/// A fetch that failed is handed on as it is. When no arrival is left, the
/// summary is still given: it names the configured stop, has no service, and
/// is stamped with `now`.
pub fn next_bus_summary(
    fetched: Result<Vec<Arrival>, Failure>,
    routes: Option<&str>,
    limit: Option<usize>,
    config: &ApiConfig,
    now: String,
) -> (outcome: Result<SummaryResponse, Failure>)
    ensures
        match fetched {
            Err(failure) => outcome == Err::<SummaryResponse, Failure>(failure),
            Ok(arrivals) => {
                &&& outcome matches Ok(summary)
                &&& summary@ == summary_of(
                    shown(arrivals@, optional_slice_text(routes)),
                    limit_of(limit),
                    config.stop_id@,
                    now@,
                )
            },
        },
{
    match fetched {
        Err(failure) => Err(failure),
        Ok(arrivals) => Ok(build_summary(arrivals, routes, limit, config.stop_id.as_str(), now)),
    }
}

} // verus!

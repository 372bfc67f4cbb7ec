//! Canonical query strings for public and signed requests.

use vstd::prelude::*;
use vstd::string::*;
use std::time::{Duration, SystemTime};
use crate::error::GateErr;
use crate::params::{query_of, query_text, ParameterSet};
use crate::text::{decimal, decimal_string};

verus! {

broadcast use vstd::string::group_string_axioms;

/// std's `SystemTime`, opaque here: it is only handed from one clock call to
/// the next.
#[verifier::external_type_specification]
#[verifier::external_body]
pub struct ExSystemTime(SystemTime);

/// Relies on `SystemTime::now`: reads the system clock. Nothing is known of
/// the value.
#[verifier::external_body]
fn clock_now() -> SystemTime {
    SystemTime::now()
}

/// Relies on `SystemTime::duration_since` with `UNIX_EPOCH`: the time since
/// the epoch, `None` when the clock stands before it.
#[verifier::external_body]
fn since_epoch(t: SystemTime) -> Option<Duration> {
    t.duration_since(std::time::UNIX_EPOCH).ok()
}

/// Relies on `Duration::as_secs`: the whole seconds.
#[verifier::external_body]
fn whole_seconds(d: &Duration) -> u64 {
    d.as_secs()
}

/// Relies on `Duration::subsec_nanos`: the fractional part in nanoseconds.
#[verifier::external_body]
fn fraction_nanos(d: &Duration) -> u32 {
    d.subsec_nanos()
}

/// The parameters of a signed request: the caller's, a `recvWindow` when the
/// window is positive, and the `timestamp`.
pub open spec fn signed_map(
    m: Map<Seq<char>, Seq<char>>,
    recv_window: u64,
    timestamp: u64,
) -> Map<Seq<char>, Seq<char>> {
    let with_window = if recv_window > 0 {
        m.insert("recvWindow"@, decimal(recv_window as nat))
    } else {
        m
    };
    with_window.insert("timestamp"@, decimal(timestamp as nat))
}

/// Milliseconds from whole seconds and a nanosecond fraction; `None` when
/// the result does not fit `u64`.
pub fn millis_from(secs: u64, nanos: u32) -> (r: Option<u64>)
    ensures
        secs * 1000 + nanos / 1_000_000 <= u64::MAX ==> r == Some((secs * 1000 + nanos / 1_000_000) as u64),
        secs * 1000 + nanos / 1_000_000 > u64::MAX ==> r is None,
{
    let millis = (nanos / 1_000_000) as u64;
    match secs.checked_mul(1000) {
        None => None,
        Some(ms) => ms.checked_add(millis),
    }
}

/// The current wall-clock time in milliseconds since the Unix epoch.
pub fn get_timestamp() -> (r: Result<u64, GateErr>)
    ensures
        r is Err ==> r == Err::<u64, GateErr>(GateErr::GetTimestampErr),
{
    let now = clock_now();
    match since_epoch(now) {
        None => Err(GateErr::GetTimestampErr),
        Some(d) => match millis_from(whole_seconds(&d), fraction_nanos(&d)) {
            None => Err(GateErr::GetTimestampErr),
            Some(t) => Ok(t),
        },
    }
}

/// Serializes the parameters as `name=value` pairs in ascending name order,
/// joined by `&`.
pub fn build_request(parameters: &ParameterSet) -> (r: String)
    requires
        parameters.wf(),
    ensures
        r@ == query_text(parameters@),
        r@ == query_of(parameters.map()),
{
    proof {
        crate::params::lemma_same_parameters_same_query(*parameters, *parameters);
    }
    let mut r = String::new();
    let n = parameters.len();
    let mut i: usize = 0;
    while i < n
        invariant
            n == parameters@.len(),
            i <= n,
            r@ == query_text(parameters@.take(i as int)),
        decreases n - i,
    {
        let (k, v) = parameters.entry(i);
        let ghost before = r@;
        if i > 0 {
            r.append("&");
        }
        r.append(k.as_str());
        r.append("=");
        r.append(v.as_str());
        proof {
            reveal_strlit("&");
            reveal_strlit("=");
            let s = parameters@.take(i + 1);
            assert(s.drop_last() =~= parameters@.take(i as int));
            assert(s.last() == parameters@[i as int]);
            if i == 0 {
                assert(before =~= Seq::<char>::empty());
            }
            assert(r@ =~= query_text(s));
        }
        i = i + 1;
    }
    assert(parameters@.take(n as int) =~= parameters@);
    r
}

/// The query string of a signed request at the given time: the parameters,
/// a `recvWindow` when the window is positive, and the `timestamp`, in
/// ascending name order.
pub fn build_signed_request_at(mut parameters: ParameterSet, recv_window: u64, timestamp: u64) -> (r: String)
    requires
        parameters.wf(),
    ensures
        r@ == query_of(signed_map(parameters.map(), recv_window, timestamp)),
{
    if recv_window > 0 {
        parameters.insert(String::from_str("recvWindow"), decimal_string(recv_window));
    }
    parameters.insert(String::from_str("timestamp"), decimal_string(timestamp));
    build_request(&parameters)
}

/// The query string of a signed request made now: as
/// `build_signed_request_at` with the current time.
pub fn build_signed_request(parameters: ParameterSet, recv_window: u64) -> (r: Result<String, GateErr>)
    requires
        parameters.wf(),
    ensures
        r matches Ok(q) ==> exists|t: u64| q@ == query_of(signed_map(parameters.map(), recv_window, t)),
        r is Err ==> r == Err::<String, GateErr>(GateErr::GetTimestampErr),
{
    match get_timestamp() {
        Ok(t) => Ok(build_signed_request_at(parameters, recv_window, t)),
        Err(_) => Err(GateErr::GetTimestampErr),
    }
}

/// Parameter sets with the same names and values give byte-identical query
/// strings, unsigned and signed at the same time with the same window,
/// whatever order they were filled in.
pub proof fn lemma_query_independent_of_insertion_order(
    p: ParameterSet,
    q: ParameterSet,
    recv_window: u64,
    timestamp: u64,
)
    requires
        p.wf(),
        q.wf(),
        p.map() == q.map(),
    ensures
        query_text(p@) == query_text(q@),
        query_of(signed_map(p.map(), recv_window, timestamp)) == query_of(signed_map(q.map(), recv_window, timestamp)),
{
    crate::params::lemma_same_parameters_same_query(p, q);
}

} // verus!

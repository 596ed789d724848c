use round_robin::error::{PoolError, ProbeFailure};
use round_robin::http_status::is_success;
use round_robin::probe::{health_url, Probe};
use round_robin::selector::RoundRobin;

#[test]
fn health_url_appends_the_health_path() {
    assert_eq!(health_url("http://localhost:10241"), "http://localhost:10241/health");
    assert_eq!(health_url("localhost:10242"), "localhost:10242/health");
    assert_eq!(health_url(""), "/health");
}

#[test]
fn a_host_that_answers_ok_is_healthy() {
    assert_eq!(RoundRobin::health(Probe::Answered { status: 200 }), Ok(()));
}

#[test]
fn a_host_that_answers_with_any_success_status_is_healthy() {
    for status in [200u16, 201, 202, 204, 206, 250, 298, 299] {
        assert_eq!(RoundRobin::health(Probe::Answered { status }), Ok(()));
    }
}

#[test]
fn a_host_that_answers_otherwise_is_unhealthy() {
    for status in [0u16, 100, 199, 300, 301, 404, 500, 503, 999, u16::MAX] {
        assert_eq!(RoundRobin::health(Probe::Answered { status }), Err(ProbeFailure::Unhealthy));
    }
}

#[test]
fn success_runs_from_200_to_299() {
    for status in 0..=u16::MAX {
        let expected = (200..=299).contains(&status);
        assert_eq!(is_success(status), expected);
        assert_eq!(RoundRobin::health(Probe::Answered { status }).is_ok(), expected);
    }
}

#[test]
fn a_host_that_does_not_answer_is_unhealthy() {
    assert_eq!(RoundRobin::health(Probe::Failed), Err(ProbeFailure::RequestFailed));
}

#[test]
fn probe_failures_are_reported_with_the_host() {
    assert_eq!(
        ProbeFailure::RequestFailed.message("http://localhost:10241"),
        "the request to http://localhost:10241/health failed"
    );
    assert_eq!(
        ProbeFailure::Unhealthy.message("http://localhost:10242"),
        "health check failed for http://localhost:10242"
    );
}

#[test]
fn an_empty_pool_is_reported() {
    assert_eq!(
        PoolError::Empty.message(),
        "none of the provided valid hosts is reachable and/or the health check request failed"
    );
}

use round_robin::error::SelectError;
use round_robin::report::{health, respond, ApiError};
use round_robin::selector::RoundRobin;

fn pool_of(hosts: &[&str]) -> RoundRobin {
    match RoundRobin::from_hosts(hosts.iter().map(|h| h.to_string()).collect()) {
        Ok(pool) => pool,
        Err(error) => panic!("{}", error.message()),
    }
}

#[test]
fn respond_reports_the_selected_host() {
    let report = respond(Ok("http://localhost:10241")).ok().expect("a host was selected");
    assert_eq!(report.health, "ok");
    assert_eq!(report.host, "http://localhost:10241");
    assert_eq!(report.status(), 200);
}

#[test]
fn respond_passes_the_failure_on() {
    assert_eq!(
        respond(Err(SelectError::CursorUpdateFailed)).err(),
        Some(ApiError { cause: SelectError::CursorUpdateFailed })
    );
    assert_eq!(
        respond(Err(SelectError::IndexOutOfRange { index: 4 })).err(),
        Some(ApiError { cause: SelectError::IndexOutOfRange { index: 4 } })
    );
}

#[test]
fn api_error_comes_from_the_failure() {
    let error = ApiError::from(SelectError::IndexOutOfRange { index: 9 });
    assert_eq!(error, ApiError { cause: SelectError::IndexOutOfRange { index: 9 } });
}

#[test]
fn api_error_is_an_error_of_the_server() {
    assert_eq!(ApiError { cause: SelectError::CursorUpdateFailed }.status(), 500);
    assert_eq!(ApiError { cause: SelectError::IndexOutOfRange { index: 0 } }.status(), 500);
}

#[test]
fn api_error_body_wraps_the_cause() {
    assert_eq!(
        ApiError { cause: SelectError::IndexOutOfRange { index: 7 } }.body(),
        "internal server error the host with index=7 is not available"
    );
    assert_eq!(
        ApiError { cause: SelectError::CursorUpdateFailed }.body(),
        "internal server error fetching and updating the host_idx failed, falling back to index 0"
    );
}

#[test]
fn health_walks_the_pool() {
    let pool = pool_of(&["localhost:10241", "localhost:10242"]);
    let mut served = Vec::new();
    for _ in 0..3 {
        let report = health(&pool).ok().expect("the pool is not empty");
        assert_eq!(report.health, "ok");
        served.push(report.host);
    }
    assert_eq!(served, vec!["localhost:10241", "localhost:10242", "localhost:10241"]);
}

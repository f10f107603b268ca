use corelink::commands::ping::{ping_report, ping_url};

#[test]
fn ping_url_trims_trailing_slashes() {
    assert_eq!(ping_url("https://cache.example.com//"), "https://cache.example.com/v1/ping");
    assert_eq!(ping_url("http://localhost:8080"), "http://localhost:8080/v1/ping");
}

#[test]
fn ping_report_success_on_2xx() {
    assert_eq!(
        ping_report(200, "200 OK", "https://e/v1/ping", 42),
        Ok("Cache reachable in 42 ms".to_string())
    );
    assert_eq!(
        ping_report(204, "204 No Content", "https://e/v1/ping", 0),
        Ok("Cache reachable in 0 ms".to_string())
    );
    assert_eq!(
        ping_report(299, "299 <unknown status code>", "u", 1234567),
        Ok("Cache reachable in 1234567 ms".to_string())
    );
}

#[test]
fn ping_report_failure_otherwise() {
    assert_eq!(
        ping_report(401, "401 Unauthorized", "https://e/v1/ping", 5),
        Err("ping failed: HTTP 401 Unauthorized from https://e/v1/ping".to_string())
    );
    assert_eq!(
        ping_report(300, "300 Multiple Choices", "u", 5),
        Err("ping failed: HTTP 300 Multiple Choices from u".to_string())
    );
    assert_eq!(
        ping_report(199, "199 <unknown status code>", "u", 5),
        Err("ping failed: HTTP 199 <unknown status code> from u".to_string())
    );
}

use sysdemo::channels::{respond, ConnectivityCheck, WorkerAction};
use sysdemo::http::{
    ephemeral_port, http_request, parse_url, random_port, HttpAction, HttpState, RequestError,
    SocketStatus,
};

fn status(is_active: bool, may_send: bool, can_recv: bool, may_recv: bool) -> SocketStatus {
    SocketStatus { is_active, may_send, can_recv, may_recv }
}

#[test]
fn http_url_is_taken_apart() {
    let url = parse_url("http://example.com/index.html").unwrap();
    assert_eq!(url.scheme, "http");
    assert_eq!(url.host.as_deref(), Some("example.com"));
    assert_eq!(url.path, "/index.html");
    assert!(url.is_http());
}

#[test]
fn url_scheme_and_default_path() {
    let url = parse_url("HTTPS://Example.COM").unwrap();
    assert_eq!(url.scheme, "https");
    assert_eq!(url.host.as_deref(), Some("example.com"));
    assert_eq!(url.path, "/");
    assert!(!url.is_http());
}

#[test]
fn unparsable_url_is_refused() {
    assert_eq!(parse_url("not a url").err(), Some(RequestError::UnparsableUrl));
    assert_eq!(parse_url("").err(), Some(RequestError::UnparsableUrl));
}

#[test]
fn request_for_url() {
    let url = parse_url("http://www.rustinaction.com/a/b?q=1").unwrap();
    assert_eq!(
        http_request(&url).unwrap(),
        "GET /a/b HTTP/1.0\r\nHost: www.rustinaction.com\r\nConnection: close\r\n\r\n"
    );
}

#[test]
fn request_needs_a_host() {
    let url = parse_url("data:text/plain,Stuff").unwrap();
    assert_eq!(url.host, None);
    assert_eq!(http_request(&url), Err(RequestError::InvalidUrl));
}

#[test]
fn ephemeral_ports() {
    assert_eq!(ephemeral_port(0), 49152);
    assert_eq!(ephemeral_port(16384), 49152);
    assert_eq!(ephemeral_port(16383), 65535);
    assert_eq!(ephemeral_port(u16::MAX), 65535);
    for _ in 0..100 {
        assert!(random_port() >= 49152);
    }
}

#[test]
fn exchange_runs_in_order() {
    let mut state = HttpState::Connect;
    let rounds = [
        (status(true, false, false, true), HttpAction::Wait),
        (status(false, false, false, false), HttpAction::Connect),
        (status(true, false, false, true), HttpAction::Wait),
        (status(true, true, false, true), HttpAction::SendRequest),
        (status(true, true, true, true), HttpAction::Receive),
        (status(true, false, false, true), HttpAction::Wait),
        (status(true, false, true, false), HttpAction::Receive),
        (status(true, false, false, false), HttpAction::Finish),
    ];
    for (s, expected) in rounds {
        let (next, action) = state.step(s);
        assert_eq!(action, expected);
        state = next;
    }
    assert_eq!(state, HttpState::Response);
}

#[test]
fn step_from_each_state() {
    assert_eq!(
        HttpState::Connect.step(status(false, true, true, false)),
        (HttpState::Request, HttpAction::Connect)
    );
    assert_eq!(
        HttpState::Request.step(status(false, false, true, false)),
        (HttpState::Request, HttpAction::Wait)
    );
    assert_eq!(
        HttpState::Response.step(status(false, true, false, true)),
        (HttpState::Response, HttpAction::Wait)
    );
}

#[test]
fn worker_answers() {
    assert_eq!(respond(ConnectivityCheck::Ping), WorkerAction::Reply(ConnectivityCheck::Pong));
    assert_eq!(respond(ConnectivityCheck::Pong), WorkerAction::ReportUnexpected);
    assert_eq!(respond(ConnectivityCheck::Pang), WorkerAction::Stop);
}

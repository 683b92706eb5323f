//! A minimal HTTP/1.0 GET client over a raw TCP socket: which URL it can
//! fetch, the request it sends, the local port it picks, and the state
//! machine that drives the socket from connecting to a complete response.
use vstd::prelude::*;

verus! {

#[verifier::external_type_specification]
#[verifier::external_body]
pub struct ExParseError(url::ParseError);

/// A URL taken apart: its scheme, its host (if it has one) and its path.
pub struct UrlParts {
    pub scheme: String,
    pub host: Option<String>,
    pub path: String,
}

/// The scheme, host and path that `url::Url::parse` finds in `input`, or
/// `None` where it finds no absolute URL.
pub uninterp spec fn url_components(input: Seq<char>) -> Option<(Seq<char>, Option<Seq<char>>, Seq<char>)>;

/// The characters of an optional string.
pub open spec fn opt_view(s: Option<String>) -> Option<Seq<char>> {
    match s {
        Some(t) => Some(t@),
        None => None,
    }
}

/// The parts a URL shows through `UrlParts`.
pub open spec fn parts_view(p: UrlParts) -> (Seq<char>, Option<Seq<char>>, Seq<char>) {
    (p.scheme@, opt_view(p.host), p.path@)
}

/// `url::Url::parse`, with the result read through `Url::scheme`,
/// `Url::host_str` and `Url::path`. The contract names what it gives for
/// `input` without saying what that is; it fails exactly where the name
/// says there is no URL.
#[verifier::external_body]
fn url_parse(input: &str) -> (r: Result<UrlParts, url::ParseError>)
    ensures
        match r {
            Ok(p) => url_components(input@) == Some(parts_view(p)),
            Err(_) => url_components(input@) is None,
        },
{
    let url = url::Url::parse(input)?;
    Ok(
        UrlParts {
            scheme: url.scheme().to_string(),
            host: match url.host_str() {
                Some(h) => Some(h.to_string()),
                None => None,
            },
            path: url.path().to_string(),
        },
    )
}

/// Why a URL cannot be fetched.
#[derive(Debug, PartialEq, Eq, Structural)]
pub enum RequestError {
    /// The text is not an absolute URL.
    UnparsableUrl,
    /// The URL names no host.
    InvalidUrl,
}

/// Takes `input` apart as a URL.
pub fn parse_url(input: &str) -> (r: Result<UrlParts, RequestError>)
    ensures
        match r {
            Ok(p) => url_components(input@) == Some(parts_view(p)),
            Err(e) => e == RequestError::UnparsableUrl && url_components(input@) is None,
        },
{
    match url_parse(input) {
        Ok(p) => Ok(p),
        Err(_) => Err(RequestError::UnparsableUrl),
    }
}

impl UrlParts {
    /// The URL's scheme is `http`, the only one this client speaks.
    pub fn is_http(&self) -> (b: bool)
        ensures
            b == (self.scheme@ == "http"@),
    {
        let http = String::from_str("http");
        self.scheme == http
    }
}

/// The request for `path` on `host`.
pub open spec fn spec_request(path: Seq<char>, host: Seq<char>) -> Seq<char> {
    "GET "@ + path + " HTTP/1.0\r\nHost: "@ + host + "\r\nConnection: close\r\n\r\n"@
}

/// The HTTP/1.0 GET request for `url`; `InvalidUrl` when it has no host.
pub fn http_request(url: &UrlParts) -> (r: Result<String, RequestError>)
    ensures
        match url.host {
            Some(h) => r matches Ok(s) && s@ == spec_request(url.path@, h@),
            None => r == Err::<String, RequestError>(RequestError::InvalidUrl),
        },
{
    match &url.host {
        Some(host) => {
            let mut s = String::from_str("GET ");
            s.append(url.path.as_str());
            s.append(" HTTP/1.0\r\nHost: ");
            s.append(host.as_str());
            s.append("\r\nConnection: close\r\n\r\n");
            Ok(s)
        },
        None => Err(RequestError::InvalidUrl),
    }
}

/// A random `u16`, from `rand::random`. Nothing is stated of its value.
#[verifier::external_body]
fn random_u16() -> (r: u16) {
    rand::random::<u16>()
}

/// The first port of the dynamic (ephemeral) range.
pub const EPHEMERAL_PORT_START: u16 = 49152;

/// The ephemeral port that the random number `r` selects.
pub fn ephemeral_port(r: u16) -> (p: u16)
    ensures
        p == EPHEMERAL_PORT_START + r % 16384,
        EPHEMERAL_PORT_START <= p,
{
    EPHEMERAL_PORT_START + r % 16384
}

/// A random port of the dynamic range, 49152 to 65535.
pub fn random_port() -> (p: u16)
    ensures
        EPHEMERAL_PORT_START <= p,
{
    ephemeral_port(random_u16())
}

/// Where the client is in an exchange.
#[derive(Debug, Clone, Copy, PartialEq, Eq, Structural)]
pub enum HttpState {
    Connect,
    Request,
    Response,
}

/// What the client does with its socket in one round.
#[derive(Debug, Clone, Copy, PartialEq, Eq, Structural)]
pub enum HttpAction {
    /// Open the connection to the server.
    Connect,
    /// Send the request.
    SendRequest,
    /// Take in and show what has arrived.
    Receive,
    /// The response is complete; stop.
    Finish,
    /// Nothing to do this round.
    Wait,
}

/// What the socket reports at the start of a round.
#[derive(Debug, Clone, Copy)]
pub struct SocketStatus {
    pub is_active: bool,
    pub may_send: bool,
    pub can_recv: bool,
    pub may_recv: bool,
}

/// The next state and the action of one round.
pub open spec fn spec_step(state: HttpState, s: SocketStatus) -> (HttpState, HttpAction) {
    match state {
        HttpState::Connect => if !s.is_active {
            (HttpState::Request, HttpAction::Connect)
        } else {
            (HttpState::Connect, HttpAction::Wait)
        },
        HttpState::Request => if s.may_send {
            (HttpState::Response, HttpAction::SendRequest)
        } else {
            (HttpState::Request, HttpAction::Wait)
        },
        HttpState::Response => if s.can_recv {
            (HttpState::Response, HttpAction::Receive)
        } else if !s.may_recv {
            (HttpState::Response, HttpAction::Finish)
        } else {
            (HttpState::Response, HttpAction::Wait)
        },
    }
}

/// How far an exchange has come.
pub open spec fn rank(state: HttpState) -> int {
    match state {
        HttpState::Connect => 0,
        HttpState::Request => 1,
        HttpState::Response => 2,
    }
}

impl HttpState {
    /// Decides one round: the state after it and what to do with the socket.
    pub fn step(self, s: SocketStatus) -> (r: (HttpState, HttpAction))
        ensures
            r == spec_step(self, s),
            self == HttpState::Connect && !s.is_active ==> r == (
            HttpState::Request,
            HttpAction::Connect,
            ),
            self == HttpState::Connect && s.is_active ==> r == (HttpState::Connect, HttpAction::Wait),
            self == HttpState::Request && s.may_send ==> r == (
            HttpState::Response,
            HttpAction::SendRequest,
            ),
            self == HttpState::Request && !s.may_send ==> r == (HttpState::Request, HttpAction::Wait),
            self == HttpState::Response && s.can_recv ==> r == (
            HttpState::Response,
            HttpAction::Receive,
            ),
            self == HttpState::Response && !s.can_recv && !s.may_recv ==> r == (
            HttpState::Response,
            HttpAction::Finish,
            ),
            self == HttpState::Response && !s.can_recv && s.may_recv ==> r == (
            HttpState::Response,
            HttpAction::Wait,
            ),
    {
        match self {
            HttpState::Connect => if !s.is_active {
                (HttpState::Request, HttpAction::Connect)
            } else {
                (HttpState::Connect, HttpAction::Wait)
            },
            HttpState::Request => if s.may_send {
                (HttpState::Response, HttpAction::SendRequest)
            } else {
                (HttpState::Request, HttpAction::Wait)
            },
            HttpState::Response => if s.can_recv {
                (HttpState::Response, HttpAction::Receive)
            } else if !s.may_recv {
                (HttpState::Response, HttpAction::Finish)
            } else {
                (HttpState::Response, HttpAction::Wait)
            },
        }
    }
}

/// An exchange never goes back: each round keeps the state or moves it
/// forward by one, connecting moves to requesting, sending the request
/// moves to the response, and the exchange finishes only in the response
/// state, where nothing is sent.
pub proof fn lemma_step_progress(state: HttpState, s: SocketStatus)
    ensures
        rank(state) <= rank(spec_step(state, s).0) <= rank(state) + 1,
        spec_step(state, s).1 == HttpAction::Connect ==> state == HttpState::Connect
            && spec_step(state, s).0 == HttpState::Request,
        spec_step(state, s).1 == HttpAction::SendRequest ==> state == HttpState::Request
            && spec_step(state, s).0 == HttpState::Response,
        spec_step(state, s).1 == HttpAction::Finish ==> state == HttpState::Response,
        spec_step(state, s).1 == HttpAction::Receive ==> state == HttpState::Response,
{
}

/// The actions taken over a run of rounds, starting in `state`, when the
/// socket reports `rounds[k]` at the start of round `k`.
pub open spec fn run(state: HttpState, rounds: Seq<SocketStatus>) -> Seq<HttpAction>
    decreases rounds.len(),
{
    if rounds.len() == 0 {
        seq![]
    } else {
        let (next, action) = spec_step(state, rounds[0]);
        seq![action] + run(next, rounds.drop_first())
    }
}


/// A run takes one action per round.
pub proof fn lemma_run_len(state: HttpState, rounds: Seq<SocketStatus>)
    ensures
        run(state, rounds).len() == rounds.len(),
    decreases rounds.len(),
{
    if rounds.len() > 0 {
        lemma_run_len(spec_step(state, rounds[0]).0, rounds.drop_first());
    }
}

/// Unfolds one round of a run.
proof fn lemma_run_unfold(state: HttpState, rounds: Seq<SocketStatus>)
    requires
        rounds.len() > 0,
    ensures
        run(state, rounds) == seq![spec_step(state, rounds[0]).1] + run(
            spec_step(state, rounds[0]).0,
            rounds.drop_first(),
        ),
{
}

/// In the response state, once nothing is left to read and the socket may
/// no longer receive, the exchange finishes, whatever else the socket
/// reports; while it may still receive and nothing is waiting, the client
/// waits; whatever is waiting is received first.
pub proof fn lemma_response_round(s: SocketStatus)
    ensures
        !s.can_recv && !s.may_recv ==> spec_step(HttpState::Response, s) == (
        HttpState::Response,
        HttpAction::Finish,
        ),
        !s.can_recv && s.may_recv ==> spec_step(HttpState::Response, s) == (
        HttpState::Response,
        HttpAction::Wait,
        ),
        s.can_recv ==> spec_step(HttpState::Response, s) == (
        HttpState::Response,
        HttpAction::Receive,
        ),
{
}

/// Connecting happens exactly when an inactive socket is met in the connect
/// state, and the request is sent exactly when the socket may send in the
/// request state; otherwise those states wait.
pub proof fn lemma_connect_and_request_rounds(s: SocketStatus)
    ensures
        spec_step(HttpState::Connect, s) == (if s.is_active {
            (HttpState::Connect, HttpAction::Wait)
        } else {
            (HttpState::Request, HttpAction::Connect)
        }),
        spec_step(HttpState::Request, s) == (if s.may_send {
            (HttpState::Response, HttpAction::SendRequest)
        } else {
            (HttpState::Request, HttpAction::Wait)
        }),
{
}

/// Over any run of rounds, the request is sent only after connecting, or
/// when the run starts past connecting.
pub proof fn lemma_run_sends_after_connecting(state: HttpState, rounds: Seq<SocketStatus>, j: int)
    requires
        0 <= j < rounds.len(),
        run(state, rounds)[j] == HttpAction::SendRequest,
    ensures
        rank(state) >= 1 || exists|i: int|
            0 <= i < j && #[trigger] run(state, rounds)[i] == HttpAction::Connect,
    decreases rounds.len(),
{
    lemma_run_len(state, rounds);
    lemma_run_unfold(state, rounds);
    lemma_step_progress(state, rounds[0]);
    let next = spec_step(state, rounds[0]).0;
    let rest = rounds.drop_first();
    if j > 0 && rank(state) == 0 {
        lemma_run_sends_after_connecting(next, rest, j - 1);
        if rank(next) >= 1 {
            assert(run(state, rounds)[0] == HttpAction::Connect);
        } else {
            let i = choose|i: int| 0 <= i < j - 1 && #[trigger] run(next, rest)[i] == HttpAction::Connect;
            assert(run(state, rounds)[i + 1] == HttpAction::Connect);
        }
    }
}

/// Over any run of rounds, the response is received or finished only after
/// the request was sent, or when the run starts in the response state.
pub proof fn lemma_run_receives_after_sending(state: HttpState, rounds: Seq<SocketStatus>, j: int)
    requires
        0 <= j < rounds.len(),
        run(state, rounds)[j] == HttpAction::Receive || run(state, rounds)[j] == HttpAction::Finish,
    ensures
        rank(state) == 2 || exists|i: int|
            0 <= i < j && #[trigger] run(state, rounds)[i] == HttpAction::SendRequest,
    decreases rounds.len(),
{
    lemma_run_len(state, rounds);
    lemma_run_unfold(state, rounds);
    lemma_step_progress(state, rounds[0]);
    let next = spec_step(state, rounds[0]).0;
    let rest = rounds.drop_first();
    if j > 0 && rank(state) < 2 {
        lemma_run_receives_after_sending(next, rest, j - 1);
        if rank(next) == 2 {
            assert(run(state, rounds)[0] == HttpAction::SendRequest);
        } else {
            let i = choose|i: int|
                0 <= i < j - 1 && #[trigger] run(next, rest)[i] == HttpAction::SendRequest;
            assert(run(state, rounds)[i + 1] == HttpAction::SendRequest);
        }
    }
}

/// A run started past connecting never connects.
pub proof fn lemma_run_never_reconnects(state: HttpState, rounds: Seq<SocketStatus>, j: int)
    requires
        rank(state) >= 1,
        0 <= j < rounds.len(),
    ensures
        run(state, rounds)[j] != HttpAction::Connect,
    decreases rounds.len(),
{
    lemma_run_len(state, rounds);
    lemma_run_unfold(state, rounds);
    lemma_step_progress(state, rounds[0]);
    if j > 0 {
        lemma_run_never_reconnects(spec_step(state, rounds[0]).0, rounds.drop_first(), j - 1);
    }
}

/// Over any run of rounds, the client connects at most once.
pub proof fn lemma_run_connects_once(state: HttpState, rounds: Seq<SocketStatus>, i: int, j: int)
    requires
        0 <= i < j < rounds.len(),
        run(state, rounds)[i] == HttpAction::Connect,
    ensures
        run(state, rounds)[j] != HttpAction::Connect,
    decreases rounds.len(),
{
    lemma_run_len(state, rounds);
    lemma_run_unfold(state, rounds);
    lemma_step_progress(state, rounds[0]);
    let next = spec_step(state, rounds[0]).0;
    let rest = rounds.drop_first();
    if i == 0 {
        lemma_run_never_reconnects(next, rest, j - 1);
    } else {
        lemma_run_connects_once(next, rest, i - 1, j - 1);
    }
}

} // verus!

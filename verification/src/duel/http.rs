//! The HTTP exchange of the client with the match server.

use vstd::prelude::*;

use crate::seqs;
use crate::text;

verus! {

/// Where a request to the server goes.
pub struct LocalHttpEndpoint {
    pub host: String,
    pub port: u16,
    pub host_header: String,
    pub path: String,
}

/// What a `LocalHttpEndpoint` holds.
#[verifier::ext_equal]
pub struct LocalHttpEndpointModel {
    pub host: Seq<char>,
    pub port: u16,
    pub host_header: Seq<char>,
    pub path: Seq<char>,
}

impl DeepView for LocalHttpEndpoint {
    type V = LocalHttpEndpointModel;

    open spec fn deep_view(&self) -> LocalHttpEndpointModel {
        LocalHttpEndpointModel {
            host: self.host@,
            port: self.port,
            host_header: self.host_header@,
            path: self.path@,
        }
    }
}

/// What is wrong with the address of the server.
#[derive(Clone, Copy, Debug, PartialEq, Eq, Structural)]
pub enum EndpointError {
    /// It does not start with `http://`.
    NotHttp,
    /// There is no host.
    MissingHost,
    /// An IPv6 host has no closing bracket.
    UnterminatedIpv6,
    /// Something other than a port follows an IPv6 host.
    UnexpectedAfterIpv6,
    /// The port is not a number between 0 and 65535.
    InvalidPort,
}

/// The length of the part of `s` before the first slash, question mark or hash sign.
pub open spec fn authority_len(s: Seq<char>) -> int
    decreases s.len(),
{
    if s.len() > 0 && s[0] != '/' && s[0] != '?' && s[0] != '#' {
        1 + authority_len(s.skip(1))
    } else {
        0
    }
}

/// The port that `s` writes.
pub open spec fn port_of(s: Seq<char>) -> Result<u16, EndpointError> {
    match seqs::parse_u16(s) {
        Some(port) => Ok(port),
        None => Err(EndpointError::InvalidPort),
    }
}

/// The host and the port in the authority of an address: an IPv6 host in brackets or another host,
/// then a colon and the port. Without a port it is 80.
pub open spec fn host_and_port(authority: Seq<char>) -> Result<(Seq<char>, u16), EndpointError> {
    if seqs::starts_with(authority, "["@) {
        match seqs::split_once(authority.skip(1), "]"@) {
            None => Err(EndpointError::UnterminatedIpv6),
            Some((host, after)) => if seqs::starts_with(after, ":"@) {
                match port_of(after.skip(1)) {
                    Ok(port) => Ok((host, port)),
                    Err(error) => Err(error),
                }
            } else if after.len() == 0 {
                Ok((host, 80))
            } else {
                Err(EndpointError::UnexpectedAfterIpv6)
            },
        }
    } else {
        match seqs::rsplit_once(authority, ':') {
            Some((host, port)) => match port_of(port) {
                Ok(port) => Ok((host, port)),
                Err(error) => Err(error),
            },
            None => Ok((authority, 80)),
        }
    }
}

/// A host and a port as they stand in the header of a request; an IPv6 host in brackets.
pub open spec fn host_header_of(host: Seq<char>, port: u16) -> Seq<char> {
    if seqs::contains(host, ":"@) {
        "["@ + host + "]:"@ + seqs::decimal(port as nat)
    } else {
        host + ":"@ + seqs::decimal(port as nat)
    }
}

/// `path` with a slash at its start.
pub open spec fn rooted(path: Seq<char>) -> Seq<char> {
    if seqs::starts_with(path, "/"@) {
        path
    } else {
        "/"@ + path
    }
}

/// Where a request for `path` to the server at `server_url` goes. Whatever follows the authority in
/// `server_url` is dropped.
pub open spec fn endpoint_of(server_url: Seq<char>, path: Seq<char>) -> Result<
    LocalHttpEndpointModel,
    EndpointError,
> {
    if !seqs::starts_with(server_url, "http://"@) {
        Err(EndpointError::NotHttp)
    } else {
        let rest = server_url.skip(7);
        let authority = rest.take(authority_len(rest));
        if authority.len() == 0 {
            Err(EndpointError::MissingHost)
        } else {
            match host_and_port(authority) {
                Err(error) => Err(error),
                Ok((host, port)) => if host.len() == 0 {
                    Err(EndpointError::MissingHost)
                } else {
                    Ok(
                        LocalHttpEndpointModel {
                            host,
                            port,
                            host_header: host_header_of(host, port),
                            path: rooted(path),
                        },
                    )
                },
            }
        }
    }
}

/// The port that `s` writes.
pub fn parse_port(s: &[char]) -> (r: Result<u16, EndpointError>)
    ensures
        r == port_of(s@),
{
    match text::parse_u16(s) {
        Some(port) => Ok(port),
        None => Err(EndpointError::InvalidPort),
    }
}

fn authority_of(rest: &[char]) -> (r: &[char])
    ensures
        r@ == rest@.take(authority_len(rest@)),
{
    let mut end: usize = 0;
    assert(rest@.skip(0) =~= rest@);
    while end < rest.len() && rest[end] != '/' && rest[end] != '?' && rest[end] != '#'
        invariant
            end <= rest@.len(),
            authority_len(rest@) == end + authority_len(rest@.skip(end as int)),
        decreases rest@.len() - end,
    {
        assert(rest@.skip(end as int).skip(1) =~= rest@.skip(end + 1));
        end += 1;
    }
    text::take(rest, end)
}

fn split_host(authority: &[char]) -> (r: Result<(String, u16), EndpointError>)
    ensures
        match host_and_port(authority@) {
            Ok((host, port)) => r matches Ok(found) && found.0@ == host && found.1 == port,
            Err(error) => r matches Err(found) && found == error,
        },
{
    proof {
        reveal_strlit("[");
        reveal_strlit(":");
    }
    if let Some(after_bracket) = text::strip_prefix(authority, "[") {
        let (host, after) = match text::split_once(after_bracket, "]") {
            None => {
                return Err(EndpointError::UnterminatedIpv6);
            },
            Some(parts) => parts,
        };
        let port = match text::strip_prefix(after, ":") {
            Some(port) => match parse_port(port) {
                Ok(port) => port,
                Err(error) => {
                    return Err(error);
                },
            },
            None => {
                if after.len() == 0 {
                    80
                } else {
                    return Err(EndpointError::UnexpectedAfterIpv6);
                }
            },
        };
        Ok((text::string_of(host), port))
    } else {
        match text::rsplit_once(authority, ':') {
            Some((host, port)) => match parse_port(port) {
                Ok(port) => Ok((text::string_of(host), port)),
                Err(error) => Err(error),
            },
            None => Ok((text::string_of(authority), 80)),
        }
    }
}

/// Where a request for `path` to the server at `server_url` goes.
pub fn parse_local_http_endpoint(server_url: &str, path: &str) -> (r: Result<
    LocalHttpEndpoint,
    EndpointError,
>)
    ensures
        match endpoint_of(server_url@, path@) {
            Ok(endpoint) => r matches Ok(found) && found.deep_view() == endpoint,
            Err(error) => r matches Err(found) && found == error,
        },
{
    proof {
        reveal_strlit("http://");
    }
    let url = text::chars_of(server_url);
    let rest = match text::strip_prefix(&url, "http://") {
        None => {
            return Err(EndpointError::NotHttp);
        },
        Some(rest) => rest,
    };
    let authority = authority_of(rest);
    if authority.len() == 0 {
        return Err(EndpointError::MissingHost);
    }
    let (host, port) = match split_host(authority) {
        Err(error) => {
            return Err(error);
        },
        Ok(found) => found,
    };
    if host.as_str().is_empty() {
        return Err(EndpointError::MissingHost);
    }
    let path_chars = text::chars_of(path);
    let path = if text::starts_with(&path_chars, "/") {
        path.to_owned()
    } else {
        "/".to_owned().concat(path)
    };
    let digits = text::decimal(port as u64);
    let digits = text::string_of(&digits);
    let host_header = if text::contains_str(host.as_str(), ":") {
        "[".to_owned().concat(host.as_str()).concat("]:").concat(digits.as_str())
    } else {
        host.clone().concat(":").concat(digits.as_str())
    };
    Ok(LocalHttpEndpoint { host, port, host_header, path })
}

/// The text of a request with the given body.
pub open spec fn request_of(
    method: Seq<char>,
    endpoint: LocalHttpEndpointModel,
    body: &str,
) -> Seq<char> {
    method + " "@ + endpoint.path + " HTTP/1.1\r\nHost: "@ + endpoint.host_header
        + "\r\nConnection: close\r\nContent-Type: application/json\r\nContent-Length: "@
        + seqs::decimal(body.len() as nat) + "\r\n\r\n"@ + body@
}

/// The text of a request with the given body.
pub fn http_request(method: &str, endpoint: &LocalHttpEndpoint, body: &str) -> (r: String)
    ensures
        r@ == request_of(method@, endpoint.deep_view(), body),
{
    let length = text::decimal(body.len() as u64);
    let length = text::string_of(&length);
    method.to_owned().concat(" ").concat(endpoint.path.as_str()).concat(
        " HTTP/1.1\r\nHost: ",
    ).concat(endpoint.host_header.as_str()).concat(
        "\r\nConnection: close\r\nContent-Type: application/json\r\nContent-Length: ",
    ).concat(length.as_str()).concat("\r\n\r\n").concat(body)
}

/// What is wrong with a response.
#[derive(Debug)]
pub enum ResponseError {
    /// Nothing separates the header from the body.
    MissingSeparator,
    /// The status line cannot be read.
    InvalidStatusLine,
    /// The status is not one of success.
    Status { status: u16, body: String },
}

/// What is wrong with a response.
#[verifier::ext_equal]
pub enum ResponseErrorModel {
    MissingSeparator,
    InvalidStatusLine,
    Status { status: u16, body: Seq<char> },
}

impl DeepView for ResponseError {
    type V = ResponseErrorModel;

    open spec fn deep_view(&self) -> ResponseErrorModel {
        match self {
            ResponseError::MissingSeparator => ResponseErrorModel::MissingSeparator,
            ResponseError::InvalidStatusLine => ResponseErrorModel::InvalidStatusLine,
            ResponseError::Status { status, body } => ResponseErrorModel::Status {
                status: *status,
                body: body@,
            },
        }
    }
}

/// The second word of `s`.
pub open spec fn second_word(s: Seq<char>) -> Option<Seq<char>> {
    let rest = seqs::trim_start(s);
    seqs::first_word(rest.skip(seqs::word_len(rest)))
}

/// The status in the header of a response: the second word of its first line.
pub open spec fn status_of(head: Seq<char>) -> Option<u16> {
    if seqs::lines(head).len() == 0 {
        None
    } else {
        match second_word(seqs::lines(head)[0]) {
            Some(code) => seqs::parse_u16(code),
            None => None,
        }
    }
}

/// The body of a response of success.
pub open spec fn body_of(response: Seq<char>) -> Result<Seq<char>, ResponseErrorModel> {
    match seqs::split_once(response, "\r\n\r\n"@) {
        None => Err(ResponseErrorModel::MissingSeparator),
        Some((head, body)) => match status_of(head) {
            None => Err(ResponseErrorModel::InvalidStatusLine),
            Some(status) => if 200 <= status < 300 {
                Ok(body)
            } else {
                Err(ResponseErrorModel::Status { status, body })
            },
        },
    }
}

fn status_in(head: &[char]) -> (r: Option<u16>)
    ensures
        r == status_of(head@),
{
    let lines = text::lines(head);
    assert(seqs::views(lines@).len() == lines@.len());
    if lines.len() == 0 {
        return None;
    }
    let rest = text::trim_start(lines[0].as_slice());
    let mut end: usize = 0;
    assert(rest@.skip(0) =~= rest@);
    while end < rest.len() && !text::is_white(rest[end])
        invariant
            end <= rest@.len(),
            seqs::word_len(rest@) == end + seqs::word_len(rest@.skip(end as int)),
        decreases rest@.len() - end,
    {
        assert(rest@.skip(end as int).skip(1) =~= rest@.skip(end + 1));
        end += 1;
    }
    match text::first_word(text::skip(rest, end)) {
        None => None,
        Some(code) => text::parse_u16(code),
    }
}

/// The body of a response of success.
pub fn parse_http_response(response: &str) -> (r: Result<String, ResponseError>)
    ensures
        match body_of(response@) {
            Ok(body) => r matches Ok(found) && found@ == body,
            Err(error) => r matches Err(found) && found.deep_view() == error,
        },
{
    let chars = text::chars_of(response);
    let (head, body) = match text::split_once(&chars, "\r\n\r\n") {
        None => {
            return Err(ResponseError::MissingSeparator);
        },
        Some(parts) => parts,
    };
    match status_in(head) {
        None => Err(ResponseError::InvalidStatusLine),
        Some(status) => {
            let body = text::string_of(body);
            if 200 <= status && status < 300 {
                Ok(body)
            } else {
                Err(ResponseError::Status { status, body })
            }
        },
    }
}

impl ResponseErrorModel {
    pub open spec fn text(self) -> Seq<char> {
        match self {
            ResponseErrorModel::MissingSeparator =>
                "Server returned invalid HTTP response (missing header/body separator)"@,
            ResponseErrorModel::InvalidStatusLine => "Server returned invalid HTTP status line"@,
            ResponseErrorModel::Status { status, body } => "Server returned HTTP "@
                + seqs::decimal(status as nat) + ": "@ + body,
        }
    }
}

impl ResponseError {
    /// The message for the user.
    pub fn message(&self) -> (r: String)
        ensures
            r@ == self.deep_view().text(),
    {
        match self {
            ResponseError::MissingSeparator =>
                "Server returned invalid HTTP response (missing header/body separator)".to_owned(),
            ResponseError::InvalidStatusLine =>
                "Server returned invalid HTTP status line".to_owned(),
            ResponseError::Status { status, body } => {
                let digits = text::decimal(*status as u64);
                let digits = text::string_of(&digits);
                "Server returned HTTP ".to_owned().concat(digits.as_str()).concat(": ").concat(
                    body.as_str(),
                )
            },
        }
    }
}

/// How often a request is tried again.
pub const MAX_RETRIES: u32 = 2;

/// What follows a failed attempt.
#[derive(Clone, Copy, Debug, PartialEq, Eq, Structural)]
pub enum RetryStep {
    /// The failure is reported.
    Fail,
    /// The request is made again after so many milliseconds.
    RetryAfter(u64),
}

/// Whether a failure may go away by itself: not one that the client caused, nor one of parsing.
pub open spec fn is_transient(error: Seq<char>) -> bool {
    !seqs::contains(error, "HTTP 4"@) && !seqs::contains(error, "JSON"@)
}

/// The time to wait after the attempt with the given number, counted from zero: 100 milliseconds,
/// and twice as much each time.
pub open spec fn backoff(attempt: nat) -> nat
    decreases attempt,
{
    if attempt == 0 {
        100
    } else {
        2 * backoff((attempt - 1) as nat)
    }
}

/// What follows when the attempt with the given number, counted from zero, failed with `error`.
pub fn after_failed_attempt(error: &str, attempt: u32, max_retries: u32) -> (r: RetryStep)
    requires
        attempt < max_retries ==> backoff(attempt as nat) <= u64::MAX,
    ensures
        r == if is_transient(error@) && attempt < max_retries {
            RetryStep::RetryAfter(backoff(attempt as nat) as u64)
        } else {
            RetryStep::Fail
        },
{
    if text::contains_str(error, "HTTP 4") || text::contains_str(error, "JSON") {
        return RetryStep::Fail;
    }
    if attempt >= max_retries {
        return RetryStep::Fail;
    }
    let mut delay: u64 = 100;
    let mut i: u32 = 0;
    while i < attempt
        invariant
            i <= attempt,
            delay == backoff(i as nat),
            backoff(attempt as nat) <= u64::MAX,
        decreases attempt - i,
    {
        proof {
            backoff_grows((i + 1) as nat, attempt as nat);
        }
        delay = delay * 2;
        i += 1;
    }
    RetryStep::RetryAfter(delay)
}

/// What follows when an attempt of a request to the server failed. It is made three times at most.
pub fn after_failed_request(error: &str, attempt: u32) -> (r: RetryStep)
    ensures
        r == if is_transient(error@) && attempt < MAX_RETRIES {
            RetryStep::RetryAfter(backoff(attempt as nat) as u64)
        } else {
            RetryStep::Fail
        },
{
    proof {
        reveal_with_fuel(backoff, 3);
    }
    after_failed_attempt(error, attempt, MAX_RETRIES)
}

proof fn backoff_grows(i: nat, j: nat)
    requires
        i <= j,
    ensures
        backoff(i) <= backoff(j),
    decreases j,
{
    if i < j {
        backoff_grows(i, (j - 1) as nat);
    }
}

/// Whatever address a request goes to, its path starts with a slash and its host is not empty.
pub proof fn endpoints_are_usable(server_url: Seq<char>, path: Seq<char>)
    ensures
        endpoint_of(server_url, path) matches Ok(endpoint) ==> endpoint.host.len() > 0
            && seqs::starts_with(endpoint.path, "/"@),
{
    reveal_strlit("/");
    let added = "/"@ + path;
    assert(added.subrange(0, 1) =~= "/"@);
}

/// A client error is never retried.
pub proof fn client_errors_are_final(status: u16, body: Seq<char>)
    requires
        400 <= status < 500,
    ensures
        !is_transient((ResponseErrorModel::Status { status, body }).text()),
{
    let digits = seqs::decimal(status as nat);
    let message = (ResponseErrorModel::Status { status, body }).text();
    reveal_strlit("Server returned HTTP ");
    reveal_strlit("HTTP 4");
    reveal_with_fuel(seqs::decimal, 3);
    assert(status as nat / 10 / 10 == 4);
    assert(digits[0] == seqs::digit(4));
    assert(message.subrange(16, 22) =~= "HTTP 4"@);
    assert(seqs::matches_at(message, "HTTP 4"@, 16));
}

proof fn authority_ends(authority: Seq<char>, rest: Seq<char>)
    requires
        forall|i: int|
            0 <= i < authority.len() ==> #[trigger] authority[i] != '/' && authority[i] != '?'
                && authority[i] != '#',
        rest.len() == 0 || rest[0] == '/' || rest[0] == '?' || rest[0] == '#',
    ensures
        authority_len(authority + rest) == authority.len(),
    decreases authority.len(),
{
    if authority.len() > 0 {
        authority_ends(authority.skip(1), rest);
        assert((authority + rest).skip(1) =~= authority.skip(1) + rest);
        assert((authority + rest)[0] == authority[0]);
    } else {
        assert(authority + rest =~= rest);
    }
}

/// A request goes to the host and port that the address of the server names, whatever follows them
/// in it, and without a port to port 80. Its path is the one that is asked for.
pub proof fn request_goes_to_named_host(
    host: Seq<char>,
    port: u16,
    rest: Seq<char>,
    path: Seq<char>,
)
    requires
        host.len() > 0,
        host[0] != '[',
        forall|i: int|
            0 <= i < host.len() ==> #[trigger] host[i] != '/' && host[i] != '?' && host[i] != '#'
                && host[i] != ':',
        rest.len() == 0 || rest[0] == '/' || rest[0] == '?' || rest[0] == '#',
    ensures
        ({
            let whole = endpoint_of(
                "http://"@ + (host + ":"@ + seqs::decimal(port as nat)) + rest,
                "/"@ + path,
            );
            &&& whole is Ok
            &&& whole->Ok_0.host == host
            &&& whole->Ok_0.port == port
            &&& whole->Ok_0.host_header == host + ":"@ + seqs::decimal(port as nat)
            &&& whole->Ok_0.path == "/"@ + path
        }),
        ({
            let short = endpoint_of("http://"@ + host + rest, "/"@ + path);
            &&& short is Ok
            &&& short->Ok_0.host == host
            &&& short->Ok_0.port == 80
            &&& short->Ok_0.host_header == host + ":"@ + seqs::decimal(80)
            &&& short->Ok_0.path == "/"@ + path
        }),
{
    reveal_strlit("http://");
    reveal_strlit("/");
    reveal_strlit(":");
    reveal_strlit("[");
    let digits = seqs::decimal(port as nat);
    seqs::written_number_is_read(port as i64);
    seqs::found_text_stands_inside(path, "/"@, seq![], path);
    let named = host + ":"@ + digits;
    decimal_has_digits_only(port as nat);
    assert forall|i: int| 0 <= i < named.len() implies #[trigger] named[i] != '/' && named[i] != '?'
        && named[i] != '#' by {
        if i < host.len() {
            assert(named[i] == host[i]);
        } else if i > host.len() {
            assert(named[i] == digits[i - host.len() - 1]);
        }
    }
    let whole = "http://"@ + named + rest;
    assert(whole.subrange(0, 7) =~= "http://"@);
    assert(whole.skip(7) =~= named + rest);
    authority_ends(named, rest);
    assert((named + rest).take(named.len() as int) =~= named);
    let short = "http://"@ + host + rest;
    assert(short.subrange(0, 7) =~= "http://"@);
    assert(short.skip(7) =~= host + rest);
    authority_ends(host, rest);
    assert((host + rest).take(host.len() as int) =~= host);
    if seqs::starts_with(named, "["@) {
        assert(named.subrange(0, 1)[0] == host[0]);
    }
    if seqs::starts_with(host, "["@) {
        assert(host.subrange(0, 1)[0] == host[0]);
    }
    colon_parts(host, digits);
    seqs::cut_at_last(host, ':');
    assert(!host.contains(':')) by {
        if host.contains(':') {
            let i = choose|i: int| 0 <= i < host.len() && host[i] == ':';
            assert(host[i] != ':');
        }
    }
    seqs::found_text_stands_inside(host, ":"@, seq![], seq![]);
    if seqs::contains(host, ":"@) {
        let i = choose|i: int| seqs::matches_at(host, ":"@, i);
        assert(host.subrange(i, i + 1)[0] == host[i]);
    }
}

proof fn colon_parts(host: Seq<char>, digits: Seq<char>)
    requires
        forall|i: int| 0 <= i < digits.len() ==> #[trigger] digits[i] != ':',
    ensures
        seqs::rsplit_once(host + ":"@ + digits, ':') == Some((host, digits)),
{
    reveal_strlit(":");
    let s = host + ":"@ + digits;
    seqs::rchar_before_is_last(s, ':', s.len() as int);
    let k = seqs::rchar_before(s, ':', s.len() as int);
    assert(s[host.len() as int] == ':');
    if k > host.len() {
        assert(s[k] == digits[k - host.len() - 1]);
    }
    assert(k == host.len());
    assert(s.take(k) =~= host);
    assert(s.skip(k + 1) =~= digits);
}

proof fn decimal_has_digits_only(n: nat)
    ensures
        seqs::decimal(n).len() > 0,
        forall|i: int|
            0 <= i < seqs::decimal(n).len() ==> '0' <= #[trigger] seqs::decimal(n)[i] <= '9',
    decreases n,
{
    if n >= 10 {
        decimal_has_digits_only(n / 10);
    }
}

/// An IPv6 host stands in brackets, in the address as in the header of the request.
pub proof fn bracketed_host_is_read(host: Seq<char>, port: u16)
    requires
        !host.contains(']'),
        seqs::contains(host, ":"@),
    ensures
        host_and_port("["@ + host + "]"@) == Ok::<(Seq<char>, u16), EndpointError>((host, 80)),
        host_and_port("["@ + host + "]:"@ + seqs::decimal(port as nat)) == Ok::<
            (Seq<char>, u16),
            EndpointError,
        >((host, port)),
        host_header_of(host, port) == "["@ + host + "]:"@ + seqs::decimal(port as nat),
{
    reveal_strlit("[");
    reveal_strlit("]");
    reveal_strlit("]:");
    reveal_strlit(":");
    let digits = seqs::decimal(port as nat);
    seqs::written_number_is_read(port as i64);
    let short = "["@ + host + "]"@;
    let whole = "["@ + host + "]:"@ + digits;
    assert(short.subrange(0, 1) =~= "["@);
    assert(whole.subrange(0, 1) =~= "["@);
    closing_bracket_ends_host(host, seq![]);
    closing_bracket_ends_host(host, ":"@ + digits);
    assert(short.skip(1) =~= host + "]"@ + Seq::<char>::empty());
    assert(whole.skip(1) =~= host + "]"@ + (":"@ + digits));
    assert((":"@ + digits).subrange(0, 1) =~= ":"@);
    assert((":"@ + digits).skip(1) =~= digits);
}

proof fn closing_bracket_ends_host(host: Seq<char>, rest: Seq<char>)
    requires
        !host.contains(']'),
    ensures
        seqs::split_once(host + "]"@ + rest, "]"@) == Some((host, rest)),
{
    reveal_strlit("]");
    let s = host + "]"@ + rest;
    seqs::find_from_is_first(s, "]"@, 0);
    assert(s.subrange(host.len() as int, host.len() as int + 1) =~= "]"@);
    assert(seqs::matches_at(s, "]"@, host.len() as int));
    match seqs::find(s, "]"@) {
        Some(k) => {
            if k < host.len() {
                assert(s.subrange(k, k + 1)[0] == host[k]);
            } else if k > host.len() {
                assert(!seqs::matches_at(s, "]"@, host.len() as int));
            }
            assert(s.take(k) =~= host);
            assert(s.skip(k + 1) =~= rest);
        },
        None => {},
    }
}

/// An address that is not one of plain HTTP, and one without a host, lead nowhere, and the error
/// says why.
pub proof fn bad_address_leads_nowhere(server_url: Seq<char>, rest: Seq<char>, path: Seq<char>)
    ensures
        !seqs::starts_with(server_url, "http://"@) ==> endpoint_of(server_url, path) == Err::<
            LocalHttpEndpointModel,
            EndpointError,
        >(EndpointError::NotHttp),
        rest.len() == 0 || rest[0] == '/' || rest[0] == '?' || rest[0] == '#' ==> endpoint_of(
            "http://"@ + rest,
            path,
        ) == Err::<LocalHttpEndpointModel, EndpointError>(EndpointError::MissingHost),
{
    reveal_strlit("http://");
    let url = "http://"@ + rest;
    assert(url.subrange(0, 7) =~= "http://"@);
    assert(url.skip(7) =~= rest);
}

/// A response of success is read as its body, whatever else its header says; one of another status
/// is an error with that status and that body, and a text that is no response has an error of its
/// own.
pub proof fn body_follows_blank_line(head: Seq<char>, body: Seq<char>, status: u16)
    requires
        seqs::split_once(head + "\r\n\r\n"@ + body, "\r\n\r\n"@) == Some((head, body)),
        seqs::lines(head).len() > 0,
    ensures
        ({
            let response = head + "\r\n\r\n"@ + body;
            let first = seqs::lines(head)[0];
            &&& status_of(head) == Some(status) && 200 <= status <= 299 ==> body_of(response)
                == Ok::<Seq<char>, ResponseErrorModel>(body)
            &&& status_of(head) == Some(status) && (status < 200 || status > 299) ==> body_of(
                response,
            ) == Err::<Seq<char>, ResponseErrorModel>(
                ResponseErrorModel::Status { status, body },
            )
            &&& status_of(head) is None ==> body_of(response) == Err::<
                Seq<char>,
                ResponseErrorModel,
            >(ResponseErrorModel::InvalidStatusLine)
        }),
{
}

/// A text without a blank line is no response.
pub proof fn response_needs_blank_line(response: Seq<char>)
    requires
        !seqs::contains(response, "\r\n\r\n"@),
    ensures
        body_of(response) == Err::<Seq<char>, ResponseErrorModel>(
            ResponseErrorModel::MissingSeparator,
        ),
{
    seqs::contains_is_find(response, "\r\n\r\n"@);
}

/// The status is the number that is the second word of the first line of a response.
pub proof fn status_is_second_word(
    version: Seq<char>,
    status: u16,
    reason: Seq<char>,
    rest: Seq<char>,
)
    requires
        version.len() > 0,
        forall|i: int| 0 <= i < version.len() ==> !seqs::is_white(#[trigger] version[i]),
        forall|i: int| 0 <= i < reason.len() ==> #[trigger] reason[i] != '\n',
        reason.len() == 0 || reason[0] == ' ',
        reason.len() == 0 || reason.last() != '\r',
    ensures
        status_of(
            version + seq![' '] + seqs::decimal(status as nat) + reason + seq!['\r', '\n'] + rest,
        ) == Some(status),
{
    let digits = seqs::decimal(status as nat);
    decimal_has_digits_only(status as nat);
    seqs::written_number_is_read(status as i64);
    let line = version + seq![' '] + digits + reason;
    assert forall|i: int| 0 <= i < line.len() implies line[i] != '\n' by {
        if i < version.len() {
            assert(line[i] == version[i]);
            assert(!seqs::is_white(version[i]));
        } else if i == version.len() {
            assert(line[i] == ' ');
        } else if i <= version.len() + digits.len() {
            assert(line[i] == digits[i - version.len() - 1]);
        } else {
            assert(line[i] == reason[i - version.len() - 1 - digits.len()]);
        }
    }
    let head = line + seq!['\r', '\n'] + rest;
    seqs::lines_end_at_line_feeds(line, rest);
    assert(version + seq![' '] + digits + reason + seq!['\r', '\n'] + rest =~= head);
    assert(seqs::lines(head)[0] == line);
    assert(line[0] == version[0]);
    let after = seq![' '] + digits + reason;
    assert(line =~= version + after);
    first_word_is_counted(version, after);
    assert(line.skip(version.len() as int) =~= after);
    assert forall|i: int| 0 <= i < digits.len() implies !seqs::is_white(#[trigger] digits[i]) by {
        assert('0' <= digits[i] <= '9');
    }
    seqs::first_word_ends_at_white_space(seq![' '], digits, reason);
}

proof fn first_word_is_counted(word: Seq<char>, rest: Seq<char>)
    requires
        forall|i: int| 0 <= i < word.len() ==> !seqs::is_white(#[trigger] word[i]),
        rest.len() > 0 && seqs::is_white(rest[0]),
    ensures
        seqs::word_len(word + rest) == word.len(),
    decreases word.len(),
{
    if word.len() > 0 {
        first_word_is_counted(word.skip(1), rest);
        assert((word + rest).skip(1) =~= word.skip(1) + rest);
        assert((word + rest)[0] == word[0]);
    } else {
        assert(word + rest =~= rest);
    }
}

/// The time to wait is a tenth of a second at first and doubles with each attempt.
pub proof fn waiting_doubles(attempt: nat)
    ensures
        backoff(0) == 100,
        backoff(attempt + 1) == backoff(attempt) + backoff(attempt),
{
}

/// A failure is tried again unless it tells of a client error or of JSON.
pub proof fn client_and_parsing_errors_are_final(before: Seq<char>, after: Seq<char>, error: Seq<char>)
    ensures
        !is_transient(before + "HTTP 4"@ + after),
        !is_transient(before + "JSON"@ + after),
        !seqs::contains(error, "HTTP 4"@) && !seqs::contains(error, "JSON"@) ==> is_transient(error),
{
    seqs::found_text_stands_inside(error, "HTTP 4"@, before, after);
    seqs::found_text_stands_inside(error, "JSON"@, before, after);
}

/// A request names its method, its path and its host, tells the length of its body in bytes, and
/// ends with the body behind a blank line.
pub proof fn request_is_complete(method: Seq<char>, endpoint: LocalHttpEndpointModel, body: &str)
    ensures
        ({
            let request = request_of(method, endpoint, body);
            &&& seqs::starts_with(
                request,
                method + " "@ + endpoint.path + " HTTP/1.1\r\nHost: "@ + endpoint.host_header
                    + "\r\n"@,
            )
            &&& seqs::ends_with(
                request,
                "Content-Length: "@ + seqs::decimal(body.len() as nat) + "\r\n\r\n"@ + body@,
            )
        }),
{
    let request = request_of(method, endpoint, body);
    let middle =
        "\r\nConnection: close\r\nContent-Type: application/json\r\nContent-Length: "@;
    let inner = "Connection: close\r\nContent-Type: application/json\r\n"@;
    middle_is_parted();
    let lead = method + " "@ + endpoint.path + " HTTP/1.1\r\nHost: "@ + endpoint.host_header;
    let tail = seqs::decimal(body.len() as nat) + "\r\n\r\n"@ + body@;
    assert(request =~= lead + middle + tail);
    let start = lead + "\r\n"@;
    let end = "Content-Length: "@ + seqs::decimal(body.len() as nat) + "\r\n\r\n"@ + body@;
    assert(end =~= "Content-Length: "@ + tail);
    assert(request =~= start + (inner + end));
    seqs::found_text_stands_inside(start, start, seq![], inner + end);
    assert(request =~= (start + inner) + end);
    seqs::found_text_stands_inside(end, end, start + inner, seq![]);
}

proof fn middle_is_parted()
    ensures
        "\r\nConnection: close\r\nContent-Type: application/json\r\nContent-Length: "@ == "\r\n"@
            + "Connection: close\r\nContent-Type: application/json\r\n"@ + "Content-Length: "@,
{
    reveal_strlit("\r\nConnection: close\r\nContent-Type: application/json\r\nContent-Length: ");
    reveal_strlit("\r\n");
    reveal_strlit("Connection: close\r\nContent-Type: application/json\r\n");
    reveal_strlit("Content-Length: ");
}
/// The models hold what the values hold, each part under its own name.
pub proof fn models_hold_their_parts(
    local_http_endpoint: LocalHttpEndpoint,
    response_error: ResponseError,
)
    ensures
        local_http_endpoint.deep_view() == (LocalHttpEndpointModel {
            host: local_http_endpoint.host@,
            port: local_http_endpoint.port,
            host_header: local_http_endpoint.host_header@,
            path: local_http_endpoint.path@,
        }),
        response_error.deep_view() == match response_error {
            ResponseError::MissingSeparator => ResponseErrorModel::MissingSeparator,
            ResponseError::InvalidStatusLine => ResponseErrorModel::InvalidStatusLine,
            ResponseError::Status { status, body } => ResponseErrorModel::Status {
                status: status,
                body: body@,
            },
        },
{
}
/// A path is asked for as it is, and one without a slash at its start gets one.
pub proof fn path_is_asked_for(path: Seq<char>)
    ensures
        path.len() > 0 && path[0] == '/' ==> rooted(path) == path,
        path.len() == 0 || path[0] != '/' ==> rooted(path) == "/"@ + path,
{
    reveal_strlit("/");
    if path.len() > 0 {
        assert(path.subrange(0, 1)[0] == path[0]);
        if path[0] == '/' {
            assert(path.subrange(0, 1) =~= "/"@);
        }
    }
}

/// A port that is no number of sixteen bits, an IPv6 host without a closing bracket, and one that
/// something other than a port follows are errors of their own.
pub proof fn bad_hosts_are_told_apart(host: Seq<char>, rest: Seq<char>)
    requires
        !host.contains(']'),
    ensures
        host_and_port("["@ + host) == Err::<(Seq<char>, u16), EndpointError>(
            EndpointError::UnterminatedIpv6,
        ),
        rest.len() > 0 && rest[0] != ':' ==> host_and_port("["@ + host + "]"@ + rest) == Err::<
            (Seq<char>, u16),
            EndpointError,
        >(EndpointError::UnexpectedAfterIpv6),
        seqs::parse_u16(rest) is None ==> host_and_port("["@ + host + "]"@ + (":"@ + rest)) == Err::<
            (Seq<char>, u16),
            EndpointError,
        >(EndpointError::InvalidPort),
        seqs::parse_u16(rest) is None && !rest.contains(':') && host.len() > 0 && host[0] != '['
            ==> host_and_port(host + ":"@ + rest) == Err::<(Seq<char>, u16), EndpointError>(
            EndpointError::InvalidPort,
        ),
{
    reveal_strlit("[");
    reveal_strlit("]");
    reveal_strlit(":");
    let open = "["@ + host;
    assert(open.subrange(0, 1) =~= "["@);
    assert(open.skip(1) =~= host);
    seqs::cut_at_first(host, "]"@);
    if seqs::contains(host, "]"@) {
        let i = choose|i: int| seqs::matches_at(host, "]"@, i);
        assert(host.subrange(i, i + 1)[0] == host[i]);
    }
    closing_bracket_ends_host(host, rest);
    let other = "["@ + host + "]"@ + rest;
    assert(other.subrange(0, 1) =~= "["@);
    assert(other.skip(1) =~= host + "]"@ + rest);
    if seqs::starts_with(rest, ":"@) {
        assert(rest.subrange(0, 1)[0] == rest[0]);
    }
    let after = ":"@ + rest;
    closing_bracket_ends_host(host, after);
    let ported = "["@ + host + "]"@ + after;
    assert(ported.subrange(0, 1) =~= "["@);
    assert(ported.skip(1) =~= host + "]"@ + after);
    assert(after.subrange(0, 1) =~= ":"@);
    assert(after.skip(1) =~= rest);
    if !rest.contains(':') && host.len() > 0 && host[0] != '[' {
        assert forall|i: int| 0 <= i < rest.len() implies #[trigger] rest[i] != ':' by {
            if rest[i] == ':' {
                assert(rest.contains(':'));
            }
        }
        colon_parts(host, rest);
        let plain = host + ":"@ + rest;
        if seqs::starts_with(plain, "["@) {
            assert(plain.subrange(0, 1)[0] == host[0]);
        }
    }
}

/// The message of an error says what is wrong, and that of a refused request its status and answer.
pub proof fn error_says_what_is_wrong(status: u16, body: Seq<char>)
    ensures
        ResponseErrorModel::MissingSeparator.text()
            == "Server returned invalid HTTP response (missing header/body separator)"@,
        ResponseErrorModel::InvalidStatusLine.text() == "Server returned invalid HTTP status line"@,
        (ResponseErrorModel::Status { status, body }).text() == "Server returned HTTP "@
            + seqs::decimal(status as nat) + ": "@ + body,
{
}
/// A request that failed is made again after a tenth of a second, then after two tenths, and then no
/// more; a failure that does not go away by itself is reported at once.
pub proof fn request_is_made_three_times(error: &str, attempt: u32, step: RetryStep)
    requires
        call_ensures(after_failed_request, (error, attempt), step),
    ensures
        attempt >= 2 ==> step is Fail,
        seqs::contains(error@, "HTTP 4"@) || seqs::contains(error@, "JSON"@) ==> step is Fail,
        attempt == 0 && !seqs::contains(error@, "HTTP 4"@) && !seqs::contains(error@, "JSON"@)
            ==> step == RetryStep::RetryAfter(100),
        attempt == 1 && !seqs::contains(error@, "HTTP 4"@) && !seqs::contains(error@, "JSON"@)
            ==> step == RetryStep::RetryAfter(200),
{
    reveal_with_fuel(backoff, 2);
}
} // verus!

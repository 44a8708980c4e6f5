//! The upgrade request that opens a connection: where it goes, which headers
//! it carries, and the key that is drawn afresh for every attempt.

use vstd::prelude::*;
use crate::text::natural;
use crate::text::natural_text;

verus! {

/// `url::ParseError`, which `url::Url::parse` fails with. Nothing is claimed
/// of its values.
#[verifier::external_type_specification]
#[verifier::external_body]
pub struct ExUrlParseError(url::ParseError);

/// How many handshake attempts one connect makes at most, unless it is told
/// otherwise.
pub const MAX_ATTEMPTS: u32 = 3;

/// How many seconds lie between one failed attempt and the next, unless a
/// connect is told otherwise.
pub const RETRY_DELAY_SECS: u64 = 1;

/// How a connect goes about its handshake attempts.
#[derive(Clone, Copy, Debug, PartialEq, Eq, Structural)]
pub struct RetryPolicy {
    /// How many attempts are made at most. The first is always made: zero
    /// counts as one.
    pub max_attempts: u32,
    /// How many seconds lie between one failed attempt and the next.
    pub delay_secs: u64,
}

impl RetryPolicy {
    /// Three attempts, one second apart.
    pub open spec fn standard_spec() -> RetryPolicy {
        RetryPolicy { max_attempts: MAX_ATTEMPTS, delay_secs: RETRY_DELAY_SECS }
    }

    /// Three attempts, one second apart.
    #[verifier::when_used_as_spec(standard_spec)]
    pub fn standard() -> (policy: RetryPolicy)
        ensures
            policy == RetryPolicy::standard_spec(),
    {
        RetryPolicy { max_attempts: MAX_ATTEMPTS, delay_secs: RETRY_DELAY_SECS }
    }

    /// How many attempts a connect makes before it gives up.
    pub open spec fn limit(self) -> nat {
        if self.max_attempts == 0 {
            1
        } else {
            self.max_attempts as nat
        }
    }
}

/// The host and the port that a URL names, as far as it names them.
#[derive(Debug, PartialEq, Eq)]
pub struct Authority {
    pub host: Option<String>,
    pub port: Option<u16>,
}

/// The mathematical value of an [`Authority`].
pub ghost struct AuthorityView {
    pub host: Option<Seq<char>>,
    pub port: Option<u16>,
}

impl View for Authority {
    type V = AuthorityView;

    open spec fn view(&self) -> AuthorityView {
        AuthorityView {
            host: match self.host {
                Some(host) => Some(host@),
                None => None,
            },
            port: self.port,
        }
    }
}

/// The host and the port of an absolute URL as the `url` crate reads them;
/// `None` for a text that it does not accept as an absolute URL.
pub uninterp spec fn url_authority(text: Seq<char>) -> Option<AuthorityView>;

/// The standard base64 text, with padding, of a sequence of bytes.
pub uninterp spec fn base64_text(bytes: Seq<u8>) -> Seq<char>;

/// `url::Url::parse`, and of the parsed URL `host_str` and `port`. The
/// contract claims only that the outcome is a function of the text: `Ok`
/// exactly where [`url_authority`] is `Some`, and then with that host and
/// that port. The port is `None` where the text names none or the default
/// one of its scheme.
#[verifier::external_body]
fn parse_authority(text: &str) -> (parsed: Result<Authority, url::ParseError>)
    ensures
        parsed is Ok <==> url_authority(text@) is Some,
        parsed matches Ok(authority) ==> url_authority(text@) == Some(authority@),
{
    match url::Url::parse(text) {
        Ok(url) => Ok(Authority { host: url.host_str().map(|host| host.to_owned()), port: url.port() }),
        Err(error) => Err(error),
    }
}

/// `base64::encode` on sixteen bytes: their standard base64 text.
#[allow(deprecated)]
#[verifier::external_body]
fn base64_of(bytes: &[u8; 16]) -> (text: String)
    ensures
        text@ == base64_text(bytes@),
{
    base64::encode(bytes)
}

/// `rand::random` at the type `[u8; 16]`: sixteen bytes from the thread's
/// random number generator. Nothing is claimed of them.
#[verifier::external_body]
fn random_bytes() -> (bytes: [u8; 16]) {
    rand::random::<[u8; 16]>()
}

/// The address that the upgrade request goes to: the path `/ws` on the
/// server, with the token as a query parameter.
pub open spec fn handshake_uri(url: Seq<char>, token: Seq<char>) -> Seq<char> {
    url + "/ws?token="@ + token
}

/// The value of the `Host` header: the host, or `localhost` where the URL
/// names none, followed by a colon and the port where the URL names one.
pub open spec fn host_header(authority: AuthorityView) -> Seq<char> {
    let host = match authority.host {
        Some(host) => host,
        None => "localhost"@,
    };
    match authority.port {
        Some(port) => host + ":"@ + natural_text(port as nat),
        None => host,
    }
}

/// Whether a text is the base64 text of some sixteen bytes.
pub open spec fn is_websocket_key(key: Seq<char>) -> bool {
    exists|bytes: Seq<u8>| bytes.len() == 16 && key == #[trigger] base64_text(bytes)
}

/// One upgrade request, ready to be sent.
#[derive(Debug, PartialEq, Eq)]
pub struct HandshakeRequest {
    /// Where the request goes.
    pub uri: String,
    /// The value of the `Host` header.
    pub host: String,
    /// The value of the `Sec-WebSocket-Key` header.
    pub key: String,
}

/// The mathematical value of a [`HandshakeRequest`].
pub ghost struct RequestView {
    pub uri: Seq<char>,
    pub host: Seq<char>,
    pub key: Seq<char>,
}

impl View for HandshakeRequest {
    type V = RequestView;

    open spec fn view(&self) -> RequestView {
        RequestView { uri: self.uri@, host: self.host@, key: self.key@ }
    }
}

/// The five headers of an upgrade request, in the order in which they are
/// written, each as its name and its value.
pub open spec fn header_lines(request: RequestView) -> Seq<(Seq<char>, Seq<char>)> {
    seq![
        ("Host"@, request.host),
        ("Connection"@, "Upgrade"@),
        ("Upgrade"@, "websocket"@),
        ("Sec-WebSocket-Version"@, "13"@),
        ("Sec-WebSocket-Key"@, request.key),
    ]
}

/// Writes the address of the upgrade request.
pub fn request_uri(url: &str, token: &str) -> (uri: String)
    ensures
        uri@ == handshake_uri(url@, token@),
{
    let mut uri = String::from_str(url);
    uri.append("/ws?token=");
    uri.append(token);
    uri
}

/// Writes the value of the `Host` header.
pub fn host_of(authority: &Authority) -> (host: String)
    ensures
        host@ == host_header(authority@),
{
    let mut host = match &authority.host {
        Some(name) => name.clone(),
        None => String::from_str("localhost"),
    };
    match authority.port {
        Some(port) => {
            host.append(":");
            host.append(natural(port as u64).as_str());
        },
        None => {},
    }
    host
}

/// The key for sixteen given bytes.
pub fn websocket_key(bytes: &[u8; 16]) -> (key: String)
    ensures
        key@ == base64_text(bytes@),
        is_websocket_key(key@),
{
    let key = base64_of(bytes);
    assert(bytes@.len() == 16);
    key
}

/// A key for one attempt: the base64 text of sixteen bytes drawn at random.
pub fn fresh_key() -> (key: String)
    ensures
        is_websocket_key(key@),
{
    let bytes = random_bytes();
    websocket_key(&bytes)
}

impl HandshakeRequest {
    /// The request for a server and a token, with a given key; `None` where
    /// the address is no absolute URL.
    pub fn build(url: &str, token: &str, key: String) -> (request: Option<HandshakeRequest>)
        ensures
            request is Some <==> url_authority(handshake_uri(url@, token@)) is Some,
            request matches Some(built) ==> built@ == (RequestView {
                uri: handshake_uri(url@, token@),
                host: host_header(url_authority(handshake_uri(url@, token@)).unwrap()),
                key: key@,
            }),
    {
        let uri = request_uri(url, token);
        match parse_authority(uri.as_str()) {
            Ok(authority) => Some(HandshakeRequest { host: host_of(&authority), uri, key }),
            Err(_) => None,
        }
    }

    /// The headers of the request, each as its name and its value.
    pub fn headers(&self) -> (lines: Vec<(String, String)>)
        ensures
            lines@.map_values(|line: (String, String)| (line.0@, line.1@)) == header_lines(self@),
    {
        let mut lines: Vec<(String, String)> = Vec::new();
        lines.push((String::from_str("Host"), self.host.clone()));
        lines.push((String::from_str("Connection"), String::from_str("Upgrade")));
        lines.push((String::from_str("Upgrade"), String::from_str("websocket")));
        lines.push((String::from_str("Sec-WebSocket-Version"), String::from_str("13")));
        lines.push((String::from_str("Sec-WebSocket-Key"), self.key.clone()));
        assert(lines@.map_values(|line: (String, String)| (line.0@, line.1@)) =~= header_lines(
            self@,
        ));
        lines
    }
}

} // verus!

//! What the client says to the server's HTTP interface and what it makes of
//! the answers: the values that are exchanged, the requests to be made, and
//! the token that a login leaves behind. The exchange itself is the
//! caller's work.

use vstd::prelude::*;
use crate::text::decimal;
use crate::text::decimal_text;

verus! {

/// What a login sends.
#[derive(Debug, PartialEq, Eq)]
pub struct LoginRequest {
    pub username: String,
    pub password: String,
}

/// What the server answers to a login.
#[derive(Debug, PartialEq, Eq)]
pub struct LoginResponse {
    pub success: bool,
    pub message: String,
    pub token: Option<String>,
    pub user_id: Option<i64>,
}

/// One friend in the friend list.
#[derive(Debug, PartialEq, Eq)]
pub struct FriendInfo {
    pub id: i64,
    pub username: String,
}

/// One message of a chat's history.
#[derive(Debug, PartialEq, Eq)]
pub struct MessageResponse {
    pub id: i64,
    pub sender_id: i64,
    pub receiver_id: Option<i64>,
    pub group_id: Option<i64>,
    pub content: String,
    pub timestamp: i64,
    pub direction: String,
    pub username: String,
    pub file_path: Option<String>,
    pub file_name: Option<String>,
    pub file_size: Option<i64>,
    pub message_type: Option<String>,
}

/// What the server answers where it refuses a request.
#[derive(Debug, PartialEq, Eq)]
pub struct ErrorResponse {
    pub error: ErrorInfo,
}

/// The server's account of a refusal.
#[derive(Debug, PartialEq, Eq)]
pub struct ErrorInfo {
    pub code: i32,
    pub reason: String,
    pub description: String,
}

/// One request to the server: where it goes and the headers it carries, each
/// as its name and its value.
#[derive(Debug, PartialEq, Eq)]
pub struct ApiRequest {
    pub url: String,
    pub headers: Vec<(String, String)>,
}

/// The mathematical value of an [`ApiRequest`].
pub ghost struct ApiRequestView {
    pub url: Seq<char>,
    pub headers: Seq<(Seq<char>, Seq<char>)>,
}

impl View for ApiRequest {
    type V = ApiRequestView;

    open spec fn view(&self) -> ApiRequestView {
        ApiRequestView {
            url: self.url@,
            headers: self.headers@.map_values(|line: (String, String)| (line.0@, line.1@)),
        }
    }
}

/// An optional text as an optional sequence of characters.
pub open spec fn text_view(text: Option<String>) -> Option<Seq<char>> {
    match text {
        Some(text) => Some(text@),
        None => None,
    }
}

/// The token that a login's answer grants: the one it carries, if it
/// reports success.
pub open spec fn granted_token(response: LoginResponse) -> Option<Seq<char>> {
    if response.success {
        text_view(response.token)
    } else {
        None
    }
}

/// The value of the `Authorization` header for a token; without a token,
/// for the empty one.
pub open spec fn bearer(token: Option<Seq<char>>) -> Seq<char> {
    match token {
        Some(token) => "Bearer "@ + token,
        None => "Bearer "@,
    }
}

/// How a refusal is reported to the user.
pub open spec fn refusal_text(info: ErrorInfo) -> Seq<char> {
    "Server error: "@ + info.reason@ + " - "@ + info.description@
}

/// The headers of the request for the friend list.
pub open spec fn friend_list_headers(token: Option<Seq<char>>) -> Seq<(Seq<char>, Seq<char>)> {
    seq![
        ("Authorization"@, bearer(token)),
        (
            "Accept"@,
            "text/html,application/xhtml+xml,application/xml;q=0.9,image/avif,image/webp,image/apng,*/*;q=0.8,application/signed-exchange;v=b3;q=0.7"@,
        ),
        ("Accept-Language"@, "zh-CN,zh;q=0.9"@),
        ("Cache-Control"@, "max-age=0"@),
        (
            "User-Agent"@,
            "Mozilla/5.0 (Windows NT 10.0; Win64; x64) AppleWebKit/537.36 (KHTML, like Gecko) Chrome/135.0.0.0 Safari/537.36"@,
        ),
        ("Upgrade-Insecure-Requests"@, "1"@),
        ("Proxy-Connection"@, "keep-alive"@),
    ]
}

impl ErrorResponse {
    /// How the refusal is reported to the user.
    pub fn message(&self) -> (text: String)
        ensures
            text@ == refusal_text(self.error),
    {
        let mut text = String::from_str("Server error: ");
        text.append(self.error.reason.as_str());
        text.append(" - ");
        text.append(self.error.description.as_str());
        text
    }
}

/// A copy of an optional text.
fn copy_of(text: &Option<String>) -> (copy: Option<String>)
    ensures
        copy == *text,
{
    match text {
        Some(text) => Some(text.clone()),
        None => None,
    }
}

impl Clone for MessageResponse {
    /// A copy that is equal to `self` in every field.
    fn clone(&self) -> (copy: Self)
        ensures
            copy == *self,
    {
        MessageResponse {
            id: self.id,
            sender_id: self.sender_id,
            receiver_id: self.receiver_id,
            group_id: self.group_id,
            content: self.content.clone(),
            timestamp: self.timestamp,
            direction: self.direction.clone(),
            username: self.username.clone(),
            file_path: copy_of(&self.file_path),
            file_name: copy_of(&self.file_name),
            file_size: self.file_size,
            message_type: copy_of(&self.message_type),
        }
    }
}

impl MessageResponse {
    /// Whether the user sent the message or received it.
    pub fn send_type(&self, user_id: i64) -> (kind: &'static str)
        ensures
            kind@ == if self.sender_id == user_id {
                "send"@
            } else {
                "receive"@
            },
    {
        if self.sender_id == user_id {
            "send"
        } else {
            "receive"
        }
    }
}

/// The client's side of the HTTP interface: the server's address and the
/// token of the last successful login.
pub struct NetworkClient {
    base_url: String,
    token: Option<String>,
}

/// The state of a [`NetworkClient`] as contracts see it.
pub ghost struct NetworkView {
    pub base_url: Seq<char>,
    pub token: Option<Seq<char>>,
}

impl View for NetworkClient {
    type V = NetworkView;

    closed spec fn view(&self) -> NetworkView {
        NetworkView { base_url: self.base_url@, token: text_view(self.token) }
    }
}

impl NetworkClient {
    /// A client for one server, not logged in.
    pub fn new(base_url: String) -> (client: NetworkClient)
        ensures
            client@ == (NetworkView { base_url: base_url@, token: None }),
    {
        NetworkClient { base_url, token: None }
    }

    /// The request that a login makes, and what it sends.
    pub fn login_request(&self, username: String, password: String) -> (request: (
        ApiRequest,
        LoginRequest,
    ))
        ensures
            request.0@ == (ApiRequestView {
                url: self@.base_url + "/api/login"@,
                headers: Seq::empty(),
            }),
            request.1.username == username,
            request.1.password == password,
    {
        let mut url = self.base_url.clone();
        url.append("/api/login");
        let request = ApiRequest { url, headers: Vec::new() };
        assert(request@.headers =~= Seq::empty());
        (request, LoginRequest { username, password })
    }

    /// Takes in the answer to a login. An answer that reports success and
    /// carries a token replaces the client's token; any other leaves it as
    /// it is. The answer is handed back unchanged.
    pub fn login(&mut self, response: LoginResponse) -> (answer: LoginResponse)
        ensures
            answer == response,
            final(self)@.base_url == old(self)@.base_url,
            final(self)@.token == match granted_token(response) {
                Some(token) => Some(token),
                None => old(self)@.token,
            },
    {
        if response.success {
            match &response.token {
                Some(token) => {
                    self.token = Some(token.clone());
                },
                None => {},
            }
        }
        response
    }

    /// The token of the last successful login.
    pub fn get_token(&self) -> (token: Option<String>)
        ensures
            text_view(token) == self@.token,
    {
        copy_of(&self.token)
    }

    /// The value of the `Authorization` header.
    fn authorization(&self) -> (value: String)
        ensures
            value@ == bearer(self@.token),
    {
        let mut value = String::from_str("Bearer ");
        match &self.token {
            Some(token) => {
                value.append(token.as_str());
            },
            None => {},
        }
        value
    }

    /// The request for the friend list.
    pub fn get_friend_list(&self) -> (request: ApiRequest)
        ensures
            request@ == (ApiRequestView {
                url: self@.base_url + "/api/friends"@,
                headers: friend_list_headers(self@.token),
            }),
    {
        let mut url = self.base_url.clone();
        url.append("/api/friends");
        let mut headers: Vec<(String, String)> = Vec::new();
        headers.push((String::from_str("Authorization"), self.authorization()));
        headers.push(
            (
                String::from_str("Accept"),
                String::from_str(
                    "text/html,application/xhtml+xml,application/xml;q=0.9,image/avif,image/webp,image/apng,*/*;q=0.8,application/signed-exchange;v=b3;q=0.7",
                ),
            ),
        );
        headers.push((String::from_str("Accept-Language"), String::from_str("zh-CN,zh;q=0.9")));
        headers.push((String::from_str("Cache-Control"), String::from_str("max-age=0")));
        headers.push(
            (
                String::from_str("User-Agent"),
                String::from_str(
                    "Mozilla/5.0 (Windows NT 10.0; Win64; x64) AppleWebKit/537.36 (KHTML, like Gecko) Chrome/135.0.0.0 Safari/537.36",
                ),
            ),
        );
        headers.push((String::from_str("Upgrade-Insecure-Requests"), String::from_str("1")));
        headers.push((String::from_str("Proxy-Connection"), String::from_str("keep-alive")));
        let request = ApiRequest { url, headers };
        assert(request@.headers =~= friend_list_headers(self@.token));
        request
    }

    /// The request for the history of one chat.
    pub fn get_chat_history(&self, chat_id: i64, user_id: i64) -> (request: ApiRequest)
        ensures
            request@ == (ApiRequestView {
                url: self@.base_url + "/api/messages/"@ + decimal_text(chat_id as int),
                headers: seq![("Authorization"@, bearer(self@.token))],
            }),
    {
        let mut url = self.base_url.clone();
        url.append("/api/messages/");
        url.append(decimal(chat_id).as_str());
        let mut headers: Vec<(String, String)> = Vec::new();
        headers.push((String::from_str("Authorization"), self.authorization()));
        let request = ApiRequest { url, headers };
        assert(request@.headers =~= seq![("Authorization"@, bearer(self@.token))]);
        request
    }
}

} // verus!

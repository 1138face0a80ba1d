//! What the client asks of the server over REST: which request stands for what.

use crate::accounts;
use crate::codec;
use crate::id;
use crate::id::Uuid;
use crate::protocol::{
    EditMessageRequest, LoginRequest, RegisterRequest, SendMessageRequest, SetAvatarRequest,
    UpdateMeRequest,
};
use crate::text;
use vstd::prelude::*;

verus! {

#[derive(Debug, Clone, Copy, PartialEq, Eq, Structural)]
pub enum Method {
    Get,
    Post,
    Patch,
    Delete,
}

/// What a request carries.
#[derive(Debug)]
pub enum Payload {
    Nothing,
    Send(SendMessageRequest),
    Edit(EditMessageRequest),
    UpdateMe(UpdateMeRequest),
    SetAvatar(SetAvatarRequest),
    Login(LoginRequest),
    Register(RegisterRequest),
}

/// A request to the server, with the token of a session unless there is none yet.
#[derive(Debug)]
pub struct HttpRequest {
    pub method: Method,
    pub url: String,
    pub token: Option<String>,
    pub payload: Payload,
}

/// A server and the token of a session on it.
#[derive(Debug)]
pub struct Client {
    pub base: String,
    pub token: String,
}

impl HttpRequest {
    /// The request goes to a path of the client's server, within its session, and carries
    /// nothing.
    pub open spec fn asks(self, c: Client, method: Method, path: Seq<char>) -> bool {
        self.goes_to(c, method, path) && self.payload is Nothing
    }

    pub open spec fn goes_to(self, c: Client, method: Method, path: Seq<char>) -> bool {
        &&& self.method == method
        &&& self.url@ == c.base@ + path
        &&& self.token == Some(c.token)
    }
}

/// The path of something with an identifier.
pub open spec fn path_of(before: Seq<char>, x: Uuid, after: Seq<char>) -> Seq<char> {
    before + id::hyphenated_text(x.0) + after
}

fn path_with(before: &str, x: Uuid, after: &str) -> (r: String)
    ensures
        r@ == path_of(before@, x, after@),
{
    let digits = x.text();
    let mut out = text::joined(before, digits.as_str());
    out.append(after);
    out
}

/// The path of a page of a channel's history.
pub open spec fn history_path(channel: Uuid, before: Option<Uuid>, limit: i64) -> Seq<char> {
    path_of("/api/v1/channels/"@, channel, "/messages?limit="@) + text::signed_text(limit as int)
        + (match before {
        Some(b) => "&before="@ + id::hyphenated_text(b.0),
        None => Seq::empty(),
    })
}

/// The path of a search.
pub open spec fn search_path(query: Seq<char>, channel: Option<Uuid>) -> Seq<char> {
    "/api/v1/search?query="@ + codec::form_text(vstd::utf8::encode_utf8(query)) + (match channel {
        Some(c) => "&channel_id="@ + id::hyphenated_text(c.0),
        None => Seq::empty(),
    })
}

/// The request asks whose session it is.
pub open spec fn asks_who(c: Client, r: HttpRequest) -> bool {
    r.asks(c, Method::Get, "/api/v1/me"@)
}

/// The request changes the profile.
pub open spec fn changes_profile(
    c: Client,
    display_name: Option<String>,
    password: Option<String>,
    r: HttpRequest,
) -> bool {
    r.goes_to(c, Method::Patch, "/api/v1/me"@) && r.payload == Payload::UpdateMe(
        UpdateMeRequest { display_name, password },
    )
}

/// The request uploads an image, unless it is too large or empty.
pub open spec fn uploads_image(c: Client, bytes: Seq<u8>, r: Result<HttpRequest, String>) -> bool {
    match r {
        Ok(req) => {
            &&& 0 < bytes.len() <= accounts::MAX_AVATAR
            &&& req.goes_to(c, Method::Post, "/api/v1/me/avatar"@)
            &&& req.payload matches Payload::SetAvatar(a)
            &&& a.data_base64@ == codec::base64_text(bytes)
        },
        Err(e) => !(0 < bytes.len() <= accounts::MAX_AVATAR) && e@
            == "image must be 1 byte–1 MiB"@,
    }
}

/// The request removes the image.
pub open spec fn removes_image(c: Client, r: HttpRequest) -> bool {
    r.asks(c, Method::Delete, "/api/v1/me/avatar"@)
}

/// What a reply is held to be: nothing where it is a success, else what went wrong.
pub open spec fn checked(
    status: u16,
    status_text: Seq<char>,
    body: Seq<char>,
) -> Result<(), Seq<char>> {
    if 200 <= status < 300 {
        Ok(())
    } else {
        Err(status_text + ": "@ + body)
    }
}

/// Where the live events of a session come from.
pub open spec fn socket_address(base: Seq<char>, token: Seq<char>) -> Seq<char> {
    text::replaced_once(
        text::replaced_once(base, "http://"@, "ws://"@),
        "https://"@,
        "wss://"@,
    ) + "/api/v1/ws?token="@ + token
}

impl Client {
    /// A client of the server at `base`, which may end in slashes.
    pub fn new(base: &str, token: String) -> (r: Client)
        ensures
            r.base@ == text::without_trailing(base@, '/'),
            r.token == token,
    {
        Client { base: text::trim_end_char(base, '/'), token }
    }

    /// Where the live events come from: the server's address as one of a socket.
    pub fn ws_url(&self) -> (r: String)
        ensures
            r@ == text::replaced_once(
                text::replaced_once(self.base@, "http://"@, "ws://"@),
                "https://"@,
                "wss://"@,
            ) + "/api/v1/ws?token="@ + self.token@,
            r@ == socket_address(self.base@, self.token@),
    {
        let ws = text::replace_first(self.base.as_str(), "http://", "ws://");
        let mut out = text::replace_first(ws.as_str(), "https://", "wss://");
        out.append("/api/v1/ws?token=");
        out.append(self.token.as_str());
        out
    }

    fn request(&self, method: Method, path: &str, payload: Payload) -> (r: HttpRequest)
        ensures
            r.goes_to(*self, method, path@),
            r.payload == payload,
    {
        HttpRequest {
            method,
            url: text::joined(self.base.as_str(), path),
            token: Some(self.token.clone()),
            payload,
        }
    }

    pub fn me(&self) -> (r: HttpRequest)
        ensures
            r.asks(*self, Method::Get, "/api/v1/me"@),
            asks_who(*self, r),
    {
        self.request(Method::Get, "/api/v1/me", Payload::Nothing)
    }

    pub fn servers(&self) -> (r: HttpRequest)
        ensures
            r.asks(*self, Method::Get, "/api/v1/servers"@),
    {
        self.request(Method::Get, "/api/v1/servers", Payload::Nothing)
    }

    pub fn channels(&self, server: Uuid) -> (r: HttpRequest)
        ensures
            r.asks(*self, Method::Get, path_of("/api/v1/servers/"@, server, "/channels"@)),
    {
        let path = path_with("/api/v1/servers/", server, "/channels");
        self.request(Method::Get, path.as_str(), Payload::Nothing)
    }

    pub fn members(&self, server: Uuid) -> (r: HttpRequest)
        ensures
            r.asks(*self, Method::Get, path_of("/api/v1/servers/"@, server, "/members"@)),
    {
        let path = path_with("/api/v1/servers/", server, "/members");
        self.request(Method::Get, path.as_str(), Payload::Nothing)
    }

    pub fn history(&self, channel: Uuid, before: Option<Uuid>, limit: i64) -> (r: HttpRequest)
        ensures
            r.asks(*self, Method::Get, history_path(channel, before, limit)),
    {
        let mut path = path_with("/api/v1/channels/", channel, "/messages?limit=");
        let number = text::signed_decimal(limit);
        path.append(number.as_str());
        if let Some(b) = before {
            let digits = b.text();
            let tail = text::joined("&before=", digits.as_str());
            path.append(tail.as_str());
        }
        assert(path@ =~= history_path(channel, before, limit));
        self.request(Method::Get, path.as_str(), Payload::Nothing)
    }

    /// Sends a message with a given idempotency key.
    pub fn send_with_nonce(
        &self,
        channel: Uuid,
        content: String,
        reply_to: Option<Uuid>,
        nonce: Uuid,
    ) -> (r: HttpRequest)
        ensures
            r.goes_to(*self, Method::Post, path_of("/api/v1/channels/"@, channel, "/messages"@)),
            r.payload == Payload::Send(
                SendMessageRequest { content, reply_to, nonce: Some(nonce) },
            ),
    {
        let path = path_with("/api/v1/channels/", channel, "/messages");
        self.request(
            Method::Post,
            path.as_str(),
            Payload::Send(SendMessageRequest { content, reply_to, nonce: Some(nonce) }),
        )
    }

    /// Sends a message with a fresh idempotency key.
    pub fn send(&self, channel: Uuid, content: String, reply_to: Option<Uuid>) -> (r: HttpRequest)
        ensures
            r.goes_to(*self, Method::Post, path_of("/api/v1/channels/"@, channel, "/messages"@)),
            r.payload matches Payload::Send(req) && req.content == content && req.reply_to
                == reply_to && (req.nonce matches Some(nonce) && id::is_random(nonce.0)),
    {
        self.send_with_nonce(channel, content, reply_to, Uuid::new_v4())
    }

    pub fn edit(&self, message: Uuid, content: String) -> (r: HttpRequest)
        ensures
            r.goes_to(*self, Method::Patch, path_of("/api/v1/messages/"@, message, ""@)),
            r.payload == Payload::Edit(EditMessageRequest { content }),
    {
        let path = path_with("/api/v1/messages/", message, "");
        self.request(Method::Patch, path.as_str(), Payload::Edit(EditMessageRequest { content }))
    }

    pub fn delete(&self, message: Uuid) -> (r: HttpRequest)
        ensures
            r.asks(*self, Method::Delete, path_of("/api/v1/messages/"@, message, ""@)),
    {
        let path = path_with("/api/v1/messages/", message, "");
        self.request(Method::Delete, path.as_str(), Payload::Nothing)
    }

    pub fn react(&self, message: Uuid, emoji: &str) -> (r: HttpRequest)
        ensures
            r.asks(
                *self,
                Method::Post,
                path_of("/api/v1/messages/"@, message, "/reactions/"@) + emoji@,
            ),
    {
        let mut path = path_with("/api/v1/messages/", message, "/reactions/");
        path.append(emoji);
        self.request(Method::Post, path.as_str(), Payload::Nothing)
    }

    pub fn search(&self, query: &str, channel: Option<Uuid>) -> (r: HttpRequest)
        ensures
            r.asks(*self, Method::Get, search_path(query@, channel)),
    {
        let encoded = codec::urlencoding(query);
        let mut path = text::joined("/api/v1/search?query=", encoded.as_str());
        if let Some(c) = channel {
            let digits = c.text();
            let tail = text::joined("&channel_id=", digits.as_str());
            path.append(tail.as_str());
        }
        assert(path@ =~= search_path(query@, channel));
        self.request(Method::Get, path.as_str(), Payload::Nothing)
    }

    pub fn notifications(&self) -> (r: HttpRequest)
        ensures
            r.asks(*self, Method::Get, "/api/v1/notifications"@),
    {
        self.request(Method::Get, "/api/v1/notifications", Payload::Nothing)
    }

    pub fn logout(&self) -> (r: HttpRequest)
        ensures
            r.asks(*self, Method::Post, "/api/v1/logout"@),
    {
        self.request(Method::Post, "/api/v1/logout", Payload::Nothing)
    }

    pub fn update_me(
        &self,
        display_name: Option<String>,
        password: Option<String>,
    ) -> (r: HttpRequest)
        ensures
            r.goes_to(*self, Method::Patch, "/api/v1/me"@),
            r.payload == Payload::UpdateMe(UpdateMeRequest { display_name, password }),
            changes_profile(*self, display_name, password, r),
    {
        self.request(
            Method::Patch,
            "/api/v1/me",
            Payload::UpdateMe(UpdateMeRequest { display_name, password }),
        )
    }

    /// Uploads an image, by the bytes of its file.
    pub fn set_avatar_path(&self, bytes: &Vec<u8>) -> (r: Result<HttpRequest, String>)
        ensures
            r is Ok <==> 0 < bytes@.len() <= accounts::MAX_AVATAR,
            r matches Ok(req) ==> {
                &&& req.goes_to(*self, Method::Post, "/api/v1/me/avatar"@)
                &&& req.payload matches Payload::SetAvatar(a)
                &&& a.data_base64@ == codec::base64_text(bytes@)
                &&& codec::base64_bytes(a.data_base64@) == Some(bytes@)
                &&& codec::is_base64(a.data_base64@)
            },
            r matches Err(e) ==> e@ == "image must be 1 byte–1 MiB"@,
            uploads_image(*self, bytes@, r),
    {
        if bytes.len() == 0 || bytes.len() > accounts::MAX_AVATAR {
            return Err("image must be 1 byte–1 MiB".to_owned());
        }
        let data_base64 = codec::encode_base64(bytes);
        Ok(
            self.request(
                Method::Post,
                "/api/v1/me/avatar",
                Payload::SetAvatar(SetAvatarRequest { data_base64 }),
            ),
        )
    }

    pub fn delete_avatar(&self) -> (r: HttpRequest)
        ensures
            r.asks(*self, Method::Delete, "/api/v1/me/avatar"@),
            removes_image(*self, r),
    {
        self.request(Method::Delete, "/api/v1/me/avatar", Payload::Nothing)
    }

    /// Opens a session on the server at `base`.
    pub fn login(base: &str, name: &str, password: &str) -> (r: HttpRequest)
        ensures
            r.method == Method::Post,
            r.url@ == text::without_trailing(base@, '/') + "/api/v1/login"@,
            r.token is None,
            r.payload matches Payload::Login(req) && req.name@ == name@ && req.password@
                == password@,
    {
        let base = text::trim_end_char(base, '/');
        HttpRequest {
            method: Method::Post,
            url: text::joined(base.as_str(), "/api/v1/login"),
            token: None,
            payload: Payload::Login(
                LoginRequest { name: name.to_owned(), password: password.to_owned() },
            ),
        }
    }

    /// Makes an account on the server at `base`, and opens a session.
    pub fn register(base: &str, name: &str, password: &str) -> (r: HttpRequest)
        ensures
            r.method == Method::Post,
            r.url@ == text::without_trailing(base@, '/') + "/api/v1/register"@,
            r.token is None,
            r.payload matches Payload::Register(req) && req.name@ == name@ && req.display_name
                is None && req.password@ == password@,
    {
        let base = text::trim_end_char(base, '/');
        HttpRequest {
            method: Method::Post,
            url: text::joined(base.as_str(), "/api/v1/register"),
            token: None,
            payload: Payload::Register(
                RegisterRequest {
                    name: name.to_owned(),
                    display_name: None,
                    password: password.to_owned(),
                },
            ),
        }
    }
}

/// Holds a reply against success. The error of one without names its status and says what
/// the server said.
pub fn check(status: u16, status_text: &str, body: &str) -> (r: Result<(), String>)
    ensures
        r is Ok <==> 200 <= status < 300,
        r matches Err(e) ==> e@ == status_text@ + ": "@ + body@,
        match r {
            Ok(_) => checked(status, status_text@, body@) is Ok,
            Err(e) => checked(status, status_text@, body@) == Err::<(), Seq<char>>(e@),
        },
{
    if 200 <= status && status < 300 {
        return Ok(());
    }
    let mut out = text::joined(status_text, ": ");
    out.append(body);
    Err(out)
}

// ---------------------------------------------------------------------------
// Laws
// ---------------------------------------------------------------------------

/// A text in base64 has no white space to trim.
proof fn lemma_base64_is_trimmed(s: Seq<char>)
    requires
        codec::is_base64(s),
    ensures
        text::trimmed(s) == s,
{
    if s.len() > 0 {
        assert(codec::is_base64_char(s[0]));
        assert(codec::is_base64_char(s.last()));
        assert(text::without_leading_space(s) == s);
        assert(text::without_trailing_space(s) == s);
    }
}

/// What the client uploads is what the server takes: an image of a kind that it knows, and
/// not too large, is stored byte for byte.
pub proof fn law_an_upload_is_taken(
    req: SetAvatarRequest,
    bytes: Seq<u8>,
    data_dir: Seq<char>,
    user: Uuid,
    r: crate::exchange::Step,
)
    requires
        codec::base64_bytes(req.data_base64@) == Some(bytes),
        codec::is_base64(req.data_base64@),
        0 < bytes.len() <= accounts::MAX_AVATAR,
        accounts::avatar_mime(bytes) is Some,
        accounts::takes_avatar(r, data_dir, user, req.data_base64@),
    ensures
        ({
            &&& r matches crate::exchange::Step::Ask(
                _,
                crate::exchange::Action::WriteFile { path, bytes: b },
            )
            &&& path@ == accounts::avatar_file(data_dir, user)
            &&& b@ == bytes
        }),
{
    lemma_base64_is_trimmed(req.data_base64@);
}


/// The address of the live events is that of the server, with the scheme of a socket in place
/// of the web's, and the token behind it.
pub proof fn law_the_socket_is_on_the_server(host: Seq<char>, token: Seq<char>)
    requires
        !text::contains_text(host, "http://"@),
        !text::contains_text(host, "https://"@),
    ensures
        socket_address("http://"@ + host, token) == "ws://"@ + host + "/api/v1/ws?token="@ + token,
        socket_address("https://"@ + host, token) == "wss://"@ + host + "/api/v1/ws?token="@
            + token,
{
    reveal_strlit("http://");
    reveal_strlit("https://");
    reveal_strlit("ws://");
    let nothing = Seq::<char>::empty();
    // http
    assert(nothing + "http://"@ + host =~= "http://"@ + host);
    assert(nothing + "ws://"@ + host =~= "ws://"@ + host);
    text::law_the_first_is_replaced(nothing, "http://"@, host, "ws://"@, host);
    let ws = "ws://"@ + host;
    assert forall|i: int| !#[trigger] text::occurs_at(ws, "https://"@, i) by {
        if text::occurs_at(ws, "https://"@, i) {
            assert(ws.subrange(i, i + 8)[0] == ws[i]);
            if i < 5 {
                assert(ws[i] == "ws://"@[i]);
            } else {
                assert(host.subrange(i - 5, i + 3) =~= ws.subrange(i, i + 8));
                assert(text::occurs_at(host, "https://"@, i - 5));
            }
        }
    }
    text::law_the_first_is_replaced(nothing, "https://"@, host, "wss://"@, ws);
    // https
    let secure = "https://"@ + host;
    assert(nothing + "https://"@ + host =~= secure);
    assert(nothing + "wss://"@ + host =~= "wss://"@ + host);
    assert forall|i: int| !#[trigger] text::occurs_at(secure, "http://"@, i) by {
        if text::occurs_at(secure, "http://"@, i) {
            let sub = secure.subrange(i, i + 7);
            assert(sub[0] == secure[i]);
            assert(sub[4] == secure[i + 4]);
            if i < 8 {
                assert(secure[i] == "https://"@[i]);
            } else {
                assert(host.subrange(i - 8, i - 1) =~= sub);
                assert(text::occurs_at(host, "http://"@, i - 8));
            }
        }
    }
    text::law_the_first_is_replaced(nothing, "http://"@, host, "ws://"@, secure);
}

} // verus!

//! The server's requests: which need to be told who asks, and how each one goes on.

use crate::accounts;
use crate::accounts::{Auth, Authed};
use crate::db;
use crate::exchange::{
    refuse, reply, Action, Body, Draw, Event, Stage, Step, OK, UNAUTHORIZED,
};
use crate::id::Uuid;
use crate::messages;
use crate::messages::HistoryQuery;
use crate::protocol::{
    CreateChannelRequest, CreateServerRequest, EditMessageRequest, LoginRequest, RegisterRequest,
    SearchRequest, SendMessageRequest, SetAvatarRequest, UpdateMeRequest, User, WsEvent,
    PROTOCOL_VERSION,
};
use crate::rooms;
use crate::time::Timestamp;
use vstd::prelude::*;

verus! {

/// What can be asked of the server.
#[derive(Debug)]
pub enum Request {
    Health,
    Register(RegisterRequest),
    Login(LoginRequest),
    GetAvatar(Uuid),
    Me,
    Logout,
    UpdateMe(UpdateMeRequest),
    SetAvatar(SetAvatarRequest),
    DeleteAvatar,
    ListServers,
    CreateServer(CreateServerRequest),
    ListChannels(Uuid),
    CreateChannel(Uuid, CreateChannelRequest),
    ListMembers(Uuid),
    History(Uuid, HistoryQuery),
    Send(Uuid, SendMessageRequest),
    Edit(Uuid, EditMessageRequest),
    Delete(Uuid),
    React(Uuid, String),
    Search(SearchRequest),
    Notifications,
}

impl Request {
    /// Anyone may ask this.
    pub open spec fn is_public(self) -> bool {
        self is Health || self is Register || self is Login || self is GetAvatar
    }
}

/// What the server was started with.
#[derive(Debug)]
pub struct AppState {
    pub allow_registration: bool,
    pub data_dir: String,
}

/// What says that the server is there.
pub open spec fn says_ok(r: Step) -> bool {
    &&& r matches Step::Done(f)
    &&& f.event is None
    &&& f.reply.status == OK
    &&& f.reply.body matches Body::Text(t)
    &&& t@ == "ok"@
}

pub fn health() -> (r: Step)
    ensures
        says_ok(r),
{
    reply(OK, Body::Text("ok".to_owned()))
}

impl AppState {
    /// How a request goes on once it is known who asks, and with which token.
    pub open spec fn runs(
        self,
        user: User,
        token: String,
        request: Request,
        draw: Draw,
        r: Step,
    ) -> bool {
        match request {
            Request::Health => says_ok(r),
            Request::Register(req) => accounts::begins_register(self.allow_registration, req, r),
            Request::Login(req) => accounts::begins_login(req, r),
            Request::GetAvatar(id) => accounts::begins_get_avatar(self.data_dir@, id, r),
            Request::Me => r.replies(OK, Body::User(user)),
            Request::Logout => accounts::begins_logout(token, r),
            Request::UpdateMe(req) => accounts::begins_update_me(user.id, token, req, r),
            Request::SetAvatar(req) => accounts::takes_avatar(
                r,
                self.data_dir@,
                user.id,
                req.data_base64@,
            ),
            Request::DeleteAvatar => accounts::begins_delete_avatar(self.data_dir@, user.id, r),
            Request::ListServers => rooms::begins_list_servers(user.id, r),
            Request::CreateServer(req) => rooms::begins_create_server(user.id, req, draw, r),
            Request::ListChannels(server) => rooms::begins_list_channels(server, r),
            Request::CreateChannel(server, req) => rooms::begins_create_channel(
                server,
                req,
                draw,
                r,
            ),
            Request::ListMembers(server) => rooms::begins_list_members(server, r),
            Request::History(channel, q) => messages::begins_channel_history(
                user.id,
                channel,
                q,
                r,
            ),
            Request::Send(channel, req) => messages::begins_send_message(
                user.id,
                channel,
                req,
                draw,
                r,
            ),
            Request::Edit(message, req) => messages::begins_edit_message(
                user.id,
                message,
                req,
                r,
            ),
            Request::Delete(message) => messages::begins_delete_message(user.id, message, r),
            Request::React(message, emoji) => messages::begins_toggle_reaction(
                user.id,
                message,
                emoji,
                r,
            ),
            Request::Search(q) => messages::begins_search(user.id, q, r),
            Request::Notifications => messages::begins_list_notifications(user.id, r),
        }
    }

    fn run(&self, user: User, token: String, request: Request, draw: Draw) -> (r: Step)
        ensures
            self.runs(user, token, request, draw, r),
            r.wf(),
    {
        let data_dir = self.data_dir.as_str();
        match request {
            Request::Health => health(),
            Request::Register(req) => accounts::register(self.allow_registration, req),
            Request::Login(req) => accounts::login(req),
            Request::GetAvatar(id) => accounts::get_avatar(data_dir, id),
            Request::Me => reply(OK, Body::User(user)),
            Request::Logout => accounts::logout(token),
            Request::UpdateMe(req) => accounts::update_me(user.id, token, req),
            Request::SetAvatar(req) => accounts::set_avatar(data_dir, user.id, req),
            Request::DeleteAvatar => accounts::delete_avatar(data_dir, user.id),
            Request::ListServers => rooms::list_servers(user.id),
            Request::CreateServer(req) => rooms::create_server(user.id, req, draw),
            Request::ListChannels(server) => rooms::list_channels(server),
            Request::CreateChannel(server, req) => rooms::create_channel(server, req, draw),
            Request::ListMembers(server) => rooms::list_members(server),
            Request::History(channel, q) => messages::channel_history(user.id, channel, q),
            Request::Send(channel, req) => messages::send_message(user.id, channel, req, draw),
            Request::Edit(message, req) => messages::edit_message(user.id, message, req),
            Request::Delete(message) => messages::delete_message(user.id, message),
            Request::React(message, emoji) => messages::toggle_reaction(user.id, message, emoji),
            Request::Search(q) => messages::search(user.id, q),
            Request::Notifications => messages::list_notifications(user.id),
        }
    }

    /// How a request goes on after a step of the lookup of who asks.
    pub open spec fn proceeds(self, a: Authed, request: Request, draw: Draw, r: Step) -> bool {
        match a {
            Authed::Ask(auth, s) => r == Step::Ask(Stage::Auth(auth, request), Action::Query(s)),
            Authed::Known { user, token } => self.runs(user, token, request, draw, r),
            Authed::Refused { status, why } => r.refuses(status, why@),
        }
    }

    fn proceed(&self, a: Authed, request: Request, draw: Draw) -> (r: Step)
        ensures
            self.proceeds(a, request, draw, r),
            r.wf(),
    {
        match a {
            Authed::Ask(auth, s) => Step::Ask(Stage::Auth(auth, request), Action::Query(s)),
            Authed::Known { user, token } => self.run(user, token, request, draw),
            Authed::Refused { status, why } => refuse(status, why.as_str()),
        }
    }

    /// How a request starts: what anyone may ask, at once; all else with the lookup of who
    /// asks, by the `authorization` header.
    pub open spec fn begins(
        self,
        authorization: Option<String>,
        request: Request,
        draw: Draw,
        r: Step,
    ) -> bool {
        match request {
            Request::Health => says_ok(r),
            Request::Register(req) => accounts::begins_register(self.allow_registration, req, r),
            Request::Login(req) => accounts::begins_login(req, r),
            Request::GetAvatar(id) => accounts::begins_get_avatar(self.data_dir@, id, r),
            _ => exists|a: Authed| #[trigger]
                accounts::begins_auth_user(authorization, a) && self.proceeds(
                    a,
                    request,
                    draw,
                    r,
                ),
        }
    }

    /// Starts a request.
    pub fn begin(&self, authorization: Option<String>, request: Request, draw: Draw) -> (r: Step)
        ensures
            self.begins(authorization, request, draw, r),
            r.wf(),
    {
        match request {
            Request::Health => health(),
            Request::Register(req) => accounts::register(self.allow_registration, req),
            Request::Login(req) => accounts::login(req),
            Request::GetAvatar(id) => accounts::get_avatar(self.data_dir.as_str(), id),
            request => {
                let a = accounts::auth_user(&authorization);
                self.proceed(a, request, draw)
            },
        }
    }

    /// What an event leads to.
    pub open spec fn leads_to(self, stage: Stage, event: Event, draw: Draw, r: Step) -> bool {
        match stage {
            Stage::Auth(auth, request) => exists|a: Authed| #[trigger]
                auth.leads_to(event, draw.now, a) && self.proceeds(a, request, draw, r),
            Stage::Register(s) => s.leads_to(event, draw, r),
            Stage::Login(s) => s.leads_to(event, draw, r),
            Stage::Logout => accounts::ends_empty(event, r),
            Stage::UpdateMe(s) => s.leads_to(event, draw, r),
            Stage::SetAvatar(s) => s.leads_to(event, draw, r),
            Stage::DeleteAvatar(user) => accounts::unmarks_avatar(user, r),
            Stage::UnmarkAvatar => accounts::ends_empty(event, r),
            Stage::GetAvatar => accounts::serves_avatar(event, r),
            Stage::ListServers => rooms::lists_servers(event, draw.now, r),
            Stage::CreateServer(s) => s.leads_to(event, draw, r),
            Stage::ListChannels => rooms::lists_channels(event, r),
            Stage::CreateChannel(channel) => rooms::announces_channel(channel, event, r),
            Stage::ListMembers => rooms::lists_members(event, draw.now, r),
            Stage::History(s) => s.leads_to(event, draw, r),
            Stage::Sending(s) => s.leads_to(event, draw, r),
            Stage::Editing(s) => s.leads_to(event, draw, r),
            Stage::Deleting(s) => s.leads_to(event, draw, r),
            Stage::Reacting(s) => s.leads_to(event, draw, r),
            Stage::Searching(s) => s.leads_to(event, draw, r),
            Stage::Notifying(s) => s.leads_to(event, draw, r),
        }
    }

    /// Goes on with a request.
    pub fn next(&self, stage: Stage, event: Event, draw: Draw) -> (r: Step)
        requires
            stage.wf(),
        ensures
            self.leads_to(stage, event, draw, r),
            r.wf(),
    {
        match stage {
            Stage::Auth(auth, request) => {
                let a = auth.next(event, draw.now);
                self.proceed(a, request, draw)
            },
            Stage::Register(s) => s.next(event, draw),
            Stage::Login(s) => s.next(event, draw),
            Stage::Logout => accounts::end_empty(event),
            Stage::UpdateMe(s) => s.next(event, draw),
            Stage::SetAvatar(s) => s.next(event, draw),
            Stage::DeleteAvatar(user) => accounts::unmark_avatar(user),
            Stage::UnmarkAvatar => accounts::end_empty(event),
            Stage::GetAvatar => accounts::serve_avatar(event),
            Stage::ListServers => rooms::end_list_servers(event, draw.now),
            Stage::CreateServer(s) => s.next(event, draw),
            Stage::ListChannels => rooms::end_list_channels(event),
            Stage::CreateChannel(channel) => rooms::end_create_channel(channel, event),
            Stage::ListMembers => rooms::end_list_members(event, draw.now),
            Stage::History(s) => s.next(event, draw),
            Stage::Sending(s) => s.next(event, draw),
            Stage::Editing(s) => s.next(event, draw),
            Stage::Deleting(s) => s.next(event, draw),
            Stage::Reacting(s) => s.next(event, draw),
            Stage::Searching(s) => s.next(event, draw),
            Stage::Notifying(s) => s.next(event, draw),
        }
    }

    /// Starts a request, with fresh identifiers and the present.
    pub fn start(&self, authorization: Option<String>, request: Request) -> (r: Step)
        ensures
            exists|draw: Draw|
                draw.wf() && draw.is_fresh() && #[trigger] self.begins(
                    authorization,
                    request,
                    draw,
                    r,
                ),
            r.wf(),
    {
        self.begin(authorization, request, Draw::new())
    }

    /// Goes on with a request, with fresh identifiers and the present.
    pub fn step(&self, stage: Stage, event: Event) -> (r: Step)
        requires
            stage.wf(),
        ensures
            exists|draw: Draw|
                draw.wf() && draw.is_fresh() && #[trigger] self.leads_to(stage, event, draw, r),
            r.wf(),
    {
        self.next(stage, event, Draw::new())
    }
}

/// Without a token only what is public is answered: all else is refused, and nothing is
/// looked up or changed.
pub proof fn law_no_token_no_access(
    state: AppState,
    authorization: Option<String>,
    request: Request,
    draw: Draw,
    r: Step,
)
    requires
        !request.is_public(),
        accounts::bearer(db::optional_text(authorization)) is None,
        state.begins(authorization, request, draw, r),
    ensures
        r.refuses(UNAUTHORIZED, "missing Bearer token"@),
{
    let a = choose|a: Authed| #[trigger]
        accounts::begins_auth_user(authorization, a) && state.proceeds(a, request, draw, r);
    assert(state.proceeds(a, request, draw, r));
}

/// A token that is not stored gives no access, whatever is asked. So a session that was
/// ended, and whose token was deleted with it, is over.
pub proof fn law_unknown_token_no_access(
    state: AppState,
    token: String,
    request: Request,
    rows: Vec<Vec<db::Value>>,
    draw: Draw,
    r: Step,
)
    requires
        rows@.len() == 0,
        state.leads_to(Stage::Auth(Auth::Token(token), request), Event::Rows(rows), draw, r),
    ensures
        r.refuses(UNAUTHORIZED, "invalid token"@),
{
    let auth = Auth::Token(token);
    let a = choose|a: Authed| #[trigger]
        auth.leads_to(Event::Rows(rows), draw.now, a) && state.proceeds(a, request, draw, r);
    assert(state.proceeds(a, request, draw, r));
}

/// Nothing is changed for anyone before it is known who asks.
pub proof fn law_nothing_is_written_for_strangers(
    state: AppState,
    auth: Auth,
    request: Request,
    event: Event,
    draw: Draw,
    r: Step,
)
    requires
        state.leads_to(Stage::Auth(auth, request), event, draw, r),
        r.writes(),
    ensures
        auth is User,
        event matches Event::Rows(rows) && rows@.len() > 0 && db::has_stored_user_cells(
            rows@[0]@,
        ),
{
    let a = choose|a: Authed| #[trigger]
        auth.leads_to(event, draw.now, a) && state.proceeds(a, request, draw, r);
    assert(state.proceeds(a, request, draw, r));
}

/// Logging out deletes the very token that the request came with. So no request with that
/// token has access from then on.
pub proof fn law_logout_ends_the_session(
    state: AppState,
    authorization: Option<String>,
    asked: Step,
    found: Step,
    owners: Vec<Vec<db::Value>>,
    users: Vec<Vec<db::Value>>,
    draws: (Draw, Draw, Draw),
    r: Step,
)
    requires
        accounts::bearer(db::optional_text(authorization)) is Some,
        state.begins(authorization, Request::Logout, draws.0, asked),
        owners@.len() > 0,
        db::text_at(owners@[0]@, 0) is Some,
        state.leads_to(asked.state(), Event::Rows(owners), draws.1, found),
        users@.len() > 0,
        db::has_stored_user_cells(users@[0]@),
        state.leads_to(found.state(), Event::Rows(users), draws.2, r),
    ensures
        r.executes(
            "DELETE FROM tokens WHERE token=?1"@,
            seq![db::text_value(accounts::bearer(db::optional_text(authorization))->0)],
        ),
{
    let request = Request::Logout;
    let a = choose|a: Authed| #[trigger]
        accounts::begins_auth_user(authorization, a) && state.proceeds(
            a,
            request,
            draws.0,
            asked,
        );
    assert(state.proceeds(a, request, draws.0, asked));
    let first = a->Ask_0;
    let b = choose|b: Authed| #[trigger]
        first.leads_to(Event::Rows(owners), draws.1.now, b) && state.proceeds(
            b,
            request,
            draws.1,
            found,
        );
    assert(state.proceeds(b, request, draws.1, found));
    let second = b->Ask_0;
    let c = choose|c: Authed| #[trigger]
        second.leads_to(Event::Rows(users), draws.2.now, c) && state.proceeds(
            c,
            request,
            draws.2,
            r,
        );
    assert(state.proceeds(c, request, draws.2, r));
}

/// Where the environment says `0`, or `false` in whatever case, nobody can register.
pub proof fn law_registration_can_be_closed(
    value: Seq<char>,
    state: AppState,
    authorization: Option<String>,
    req: RegisterRequest,
    draw: Draw,
    r: Step,
)
    requires
        value == "0"@ || crate::text::lowercased(value) == "false"@,
        state.allow_registration == crate::server_config::allows(
            value,
            crate::text::lowercased(value),
        ),
        state.begins(authorization, Request::Register(req), draw, r),
    ensures
        r.refuses(crate::exchange::FORBIDDEN, "registration disabled"@),
{
}

// ---------------------------------------------------------------------------
// Live events
// ---------------------------------------------------------------------------

/// How far a socket has come.
#[derive(Debug)]
pub enum Socket {
    /// Whose token it is is being looked up,
    Token,
    /// then that user;
    User,
    /// then events are passed on.
    Open,
}

/// What happens to a socket.
#[derive(Debug)]
pub enum SocketEvent {
    /// What came of a statement.
    Database(Event),
    /// An event was passed on.
    Sent,
    /// Nothing can be passed on any more.
    SendFailed,
    /// The client said something.
    Received,
    /// The client is gone.
    Closed,
    /// There is news for everyone who listens.
    News(WsEvent),
    /// There is no more news, or some was missed.
    NewsEnded,
}

/// What a socket does next.
#[derive(Debug)]
pub enum SocketAction {
    Query(db::Statement),
    Send(WsEvent),
    Wait,
    Close,
}

/// Starts to serve a socket that was opened with a token.
pub fn ws_handler(token: &Option<String>) -> (r: (Socket, SocketAction))
    ensures
        r.0 is Token,
        r.1 matches SocketAction::Query(s) && accounts::finds_token(
            s,
            match *token {
                Some(t) => t@,
                None => ""@,
            },
        ),
{
    let s = match token {
        Some(t) => accounts::token_owner(t.as_str()),
        None => accounts::token_owner(""),
    };
    (Socket::Token, SocketAction::Query(s))
}

/// The user that the lookup found is greeted. One who is not found gets the events all the
/// same, without a greeting.
pub open spec fn greets(event: Event, now: Timestamp, r: (Socket, SocketAction)) -> bool {
    &&& r.0 is Open
    &&& match event {
        Event::Rows(rows) => if rows@.len() > 0 && db::has_stored_user_cells(rows@[0]@) {
            &&& r.1 matches SocketAction::Send(WsEvent::Hello { protocol, user })
            &&& protocol == PROTOCOL_VERSION
            &&& db::is_stored_user(rows@[0]@, now, user)
        } else {
            r.1 is Wait
        },
        _ => r.1 is Wait,
    }
}

impl Socket {
    pub open spec fn leads_to(
        self,
        event: SocketEvent,
        now: Timestamp,
        r: (Socket, SocketAction),
    ) -> bool {
        match event {
            SocketEvent::Database(e) => match self {
                Socket::Token => {
                    if e matches Event::Rows(rows) && rows@.len() > 0 && db::text_at(
                        rows@[0]@,
                        0,
                    ) is Some {
                        &&& r.0 is User
                        &&& r.1 matches SocketAction::Query(s)
                        &&& db::finds_user(s, db::text_at(e->Rows_0@[0]@, 0)->0@)
                    } else {
                        r.0 is Open && r.1 is Wait
                    }
                },
                Socket::User => greets(e, now, r),
                Socket::Open => r.0 is Open && r.1 is Wait,
            },
            SocketEvent::News(news) => r.0 == self && r.1 == SocketAction::Send(news),
            SocketEvent::Sent => r.0 == self && r.1 is Wait,
            SocketEvent::Received => r.0 == self && r.1 is Wait,
            SocketEvent::SendFailed => r.0 == self && r.1 is Close,
            SocketEvent::Closed => r.0 == self && r.1 is Close,
            SocketEvent::NewsEnded => r.0 == self && r.1 is Close,
        }
    }

    /// Goes on with a socket.
    pub fn ws_task(self, event: SocketEvent, now: Timestamp) -> (r: (Socket, SocketAction))
        ensures
            self.leads_to(event, now, r),
    {
        match event {
            SocketEvent::Database(e) => match self {
                Socket::Token => {
                    let owner = match e {
                        Event::Rows(rows) => if rows.len() > 0 {
                            db::text_cell(&rows[0], 0)
                        } else {
                            None
                        },
                        _ => None,
                    };
                    match owner {
                        Some(user_id) => (
                            Socket::User,
                            SocketAction::Query(db::user_by_id(user_id.as_str())),
                        ),
                        None => (Socket::Open, SocketAction::Wait),
                    }
                },
                Socket::User => {
                    let user = match e {
                        Event::Rows(rows) => if rows.len() > 0 {
                            db::map_user(&rows[0], now)
                        } else {
                            None
                        },
                        _ => None,
                    };
                    match user {
                        Some(user) => (
                            Socket::Open,
                            SocketAction::Send(
                                WsEvent::Hello { protocol: PROTOCOL_VERSION, user },
                            ),
                        ),
                        None => (Socket::Open, SocketAction::Wait),
                    }
                },
                Socket::Open => (Socket::Open, SocketAction::Wait),
            },
            SocketEvent::News(news) => (self, SocketAction::Send(news)),
            SocketEvent::Sent => (self, SocketAction::Wait),
            SocketEvent::Received => (self, SocketAction::Wait),
            SocketEvent::SendFailed => (self, SocketAction::Close),
            SocketEvent::Closed => (self, SocketAction::Close),
            SocketEvent::NewsEnded => (self, SocketAction::Close),
        }
    }
}

} // verus!

//! One request on the server, as steps: what is to be done next, what came of it, and the
//! reply in the end.

use crate::accounts::{Auth, Login, Register, SetAvatar, UpdateMe};
use crate::db;
use crate::db::{Statement, Value};
use crate::id;
use crate::id::Uuid;
use crate::messages::{
    Deleting, Editing, History, Notifying, Reacting, Searching, Sending,
};
use crate::protocol::{
    AuthResponse, Channel, Member, Message, MessagesPage, Notification, Server, User, WsEvent,
};
use crate::rooms::CreateServer;
use crate::routes::Request;
use crate::time;
use crate::time::Timestamp;
use vstd::prelude::*;

verus! {

/// What is to be done before a request can go on.
#[derive(Debug)]
pub enum Action {
    /// Run a statement and hand back its rows.
    Query(Statement),
    /// Run a statement that has no rows.
    Execute(Statement),
    /// Write a file, and make its directory where there is none.
    WriteFile { path: String, bytes: Vec<u8> },
    ReadFile(String),
    RemoveFile(String),
}

/// What came of an action.
#[derive(Debug)]
pub enum Event {
    Rows(Vec<Vec<Value>>),
    Done,
    Bytes(Vec<u8>),
    /// It failed, for a reason.
    Failed(String),
}

/// What a reply carries.
#[derive(Debug)]
pub enum Body {
    Empty,
    Text(String),
    User(User),
    Auth(AuthResponse),
    Servers(Vec<Server>),
    Server(Server),
    Channels(Vec<Channel>),
    Channel(Channel),
    Page(MessagesPage),
    Message(Message),
    Messages(Vec<Message>),
    Members(Vec<Member>),
    Notifications(Vec<Notification>),
    Image { mime: String, cache_control: String, bytes: Vec<u8> },
}

/// A status and what is said with it.
#[derive(Debug)]
pub struct Reply {
    pub status: u16,
    pub body: Body,
}

/// The end of a request: the event that everyone who listens is told of, and the reply.
#[derive(Debug)]
pub struct Finish {
    pub event: Option<WsEvent>,
    pub reply: Reply,
}

/// How far a request has come.
#[derive(Debug)]
pub enum Stage {
    /// Who asks is being looked up.
    Auth(Auth, Request),
    Register(Register),
    Login(Login),
    /// The token is being deleted.
    Logout,
    UpdateMe(UpdateMe),
    SetAvatar(SetAvatar),
    /// The image of a user is being removed,
    DeleteAvatar(Uuid),
    /// then the mark that there is one.
    UnmarkAvatar,
    /// The image of a user is being read.
    GetAvatar,
    /// The rows of the servers are awaited.
    ListServers,
    CreateServer(CreateServer),
    /// The rows of a server's channels are awaited.
    ListChannels,
    /// A channel is being stored.
    CreateChannel(Channel),
    /// The rows of a server's members are awaited.
    ListMembers,
    History(History),
    Sending(Sending),
    Editing(Editing),
    Deleting(Deleting),
    Reacting(Reacting),
    Searching(Searching),
    Notifying(Notifying),
}

impl Stage {
    /// The counts that a stage keeps agree with each other.
    pub open spec fn wf(self) -> bool {
        match self {
            Stage::History(s) => s.wf(),
            Stage::Searching(s) => s.wf(),
            Stage::Notifying(s) => s.wf(),
            _ => true,
        }
    }
}

/// A request that has to wait for an action, or that has come to its end.
#[derive(Debug)]
pub enum Step {
    Ask(Stage, Action),
    Done(Finish),
}

/// What chance and the clock contribute to a step.
#[derive(Debug)]
pub struct Draw {
    pub id: Uuid,
    pub second: Uuid,
    pub now: Timestamp,
    /// The text of `now`.
    pub stamp: String,
}

impl Draw {
    pub open spec fn wf(self) -> bool {
        self.stamp@ == time::rfc3339_text(self.now.spec_secs(), self.now.spec_nanos())
    }

    /// Both identifiers are random ones.
    pub open spec fn is_fresh(self) -> bool {
        id::is_random(self.id.0) && id::is_random(self.second.0)
    }

    /// Two random identifiers and the present.
    pub fn new() -> (r: Draw)
        ensures
            r.wf(),
            r.is_fresh(),
    {
        let now = Timestamp::now();
        let stamp = now.text();
        Draw { id: Uuid::new_v4(), second: Uuid::new_v4(), now, stamp }
    }
}

pub const OK: u16 = 200;

pub const CREATED: u16 = 201;

pub const NO_CONTENT: u16 = 204;

pub const BAD_REQUEST: u16 = 400;

pub const UNAUTHORIZED: u16 = 401;

pub const FORBIDDEN: u16 = 403;

pub const NOT_FOUND: u16 = 404;

pub const CONFLICT: u16 = 409;

pub const INTERNAL_SERVER_ERROR: u16 = 500;

impl Step {
    pub open spec fn wf(self) -> bool {
        self matches Step::Ask(state, _) ==> state.wf()
    }

    /// The request ends with a status and a text, and nobody is told of anything.
    pub open spec fn refuses(self, status: u16, why: Seq<char>) -> bool {
        &&& self matches Step::Done(f)
        &&& f.event is None
        &&& f.reply.status == status
        &&& f.reply.body matches Body::Text(t)
        &&& t@ == why
    }

    /// The request ends with a status and a body, and nobody is told of anything.
    pub open spec fn replies(self, status: u16, body: Body) -> bool {
        &&& self matches Step::Done(f)
        &&& f.event is None
        &&& f.reply.status == status
        &&& f.reply.body == body
    }

    /// The request waits for the rows of a statement.
    pub open spec fn queries(self, sql: Seq<char>, args: Seq<db::ValueView>) -> bool {
        self matches Step::Ask(_, Action::Query(st)) && st.is(sql, args)
    }

    /// The request waits for a statement without rows.
    pub open spec fn executes(self, sql: Seq<char>, args: Seq<db::ValueView>) -> bool {
        self matches Step::Ask(_, Action::Execute(st)) && st.is(sql, args)
    }

    /// The request waits for the row of a user.
    pub open spec fn looks_up_user(self, user_id: Seq<char>) -> bool {
        self matches Step::Ask(_, Action::Query(st)) && db::finds_user(st, user_id)
    }

    /// The request ends with a status and the user that a row tells of.
    pub open spec fn replies_user(self, status: u16, row: Seq<Value>, now: Timestamp) -> bool {
        &&& self matches Step::Done(f)
        &&& f.event is None
        &&& f.reply.status == status
        &&& f.reply.body matches Body::User(u)
        &&& db::is_stored_user(row, now, u)
    }

    /// The state in which the request waits.
    pub open spec fn state(self) -> Stage {
        self->Ask_0
    }

    /// The request ends because an action failed, or because what came of it is not what
    /// the action gives.
    pub open spec fn fails(self, event: Event) -> bool {
        match event {
            Event::Failed(e) => self.refuses(INTERNAL_SERVER_ERROR, e@),
            _ => self.refuses(INTERNAL_SERVER_ERROR, "unexpected event"@),
        }
    }

    /// The request ends because a row does not have the cells that it should have.
    pub open spec fn stumbles(self) -> bool {
        self.refuses(INTERNAL_SERVER_ERROR, "malformed row"@)
    }

    /// The request changes something: it runs a statement without rows, or writes or removes
    /// a file.
    pub open spec fn writes(self) -> bool {
        self matches Step::Ask(_, a) && (a is Execute || a is WriteFile || a is RemoveFile)
    }
}

/// The end of a request that is refused.
pub fn refuse(status: u16, why: &str) -> (r: Step)
    ensures
        r.refuses(status, why@),
{
    Step::Done(
        Finish { event: None, reply: Reply { status, body: Body::Text(why.to_owned()) } },
    )
}

/// The end of a request that nobody else is told of.
pub fn reply(status: u16, body: Body) -> (r: Step)
    ensures
        r.replies(status, body),
{
    Step::Done(Finish { event: None, reply: Reply { status, body } })
}

/// The end of a request whose action did not give what it should.
pub fn fail(event: Event) -> (r: Step)
    ensures
        r.fails(event),
{
    match event {
        Event::Failed(e) => refuse(INTERNAL_SERVER_ERROR, e.as_str()),
        _ => refuse(INTERNAL_SERVER_ERROR, "unexpected event"),
    }
}

/// The end of a request that got a row without the cells it should have.
pub fn stumble() -> (r: Step)
    ensures
        r.stumbles(),
{
    refuse(INTERNAL_SERVER_ERROR, "malformed row")
}

} // verus!

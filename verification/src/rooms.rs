//! Servers, their channels and their members.

use crate::db;
use crate::exchange::{
    fail, refuse, reply, stumble, Action, Body, Draw, Event, Finish, Reply, Stage, Step,
    BAD_REQUEST, CREATED, OK,
};
use crate::id;
use crate::id::Uuid;
use crate::protocol::{
    Channel, ChannelKind, CreateChannelRequest, CreateServerRequest, Member, Presence, Server,
    WsEvent,
};
use crate::text;
use crate::time::Timestamp;
use vstd::prelude::*;

verus! {

// ---------------------------------------------------------------------------
// Servers
// ---------------------------------------------------------------------------

/// The first step of `list_servers`.
pub open spec fn begins_list_servers(user: Uuid, r: Step) -> bool {
    &&& r.queries(
        "SELECT s.id, s.name, s.description, s.created_at FROM servers s JOIN server_members m ON m.server_id=s.id WHERE m.user_id=?1 ORDER BY s.name"@,
        seq![db::id_value(user)],
    )
    &&& r.state() == Stage::ListServers
}

/// Starts to list the servers of a user.
pub fn list_servers(user: Uuid) -> (r: Step)
    ensures
        begins_list_servers(user, r),
        r.wf(),
{
    let s = db::statement1(
        "SELECT s.id, s.name, s.description, s.created_at FROM servers s JOIN server_members m ON m.server_id=s.id WHERE m.user_id=?1 ORDER BY s.name",
        db::id_arg(user),
    );
    Step::Ask(Stage::ListServers, Action::Query(s))
}

pub open spec fn has_server_cells(row: Seq<db::Value>) -> bool {
    &&& db::text_at(row, 0) is Some
    &&& db::text_at(row, 1) is Some
    &&& db::optional_at(row, 2) is Some
    &&& db::text_at(row, 3) is Some
}

/// The server that a row tells of.
pub open spec fn is_server(row: Seq<db::Value>, now: Timestamp, s: Server) -> bool {
    &&& has_server_cells(row)
    &&& s.id == id::or_nil(id::parsed_uuid(db::text_at(row, 0)->0@))
    &&& s.name == db::text_at(row, 1)->0
    &&& s.description == db::optional_at(row, 2)->0
    &&& db::reads_as(s.created_at, db::text_at(row, 3)->0@, now)
    &&& !s.unread
    &&& !s.mentioned
}

fn map_server(row: &Vec<db::Value>, now: Timestamp) -> (r: Option<Server>)
    ensures
        r is Some <==> has_server_cells(row@),
        r matches Some(s) ==> is_server(row@, now, s),
{
    match (
        db::text_cell(row, 0),
        db::text_cell(row, 1),
        db::optional_cell(row, 2),
        db::text_cell(row, 3),
    ) {
        (Some(server_id), Some(name), Some(description), Some(created_at)) => Some(
            Server {
                id: Uuid::parse_or_nil(server_id.as_str()),
                name,
                description,
                created_at: db::stored_time(created_at.as_str(), now),
                unread: false,
                mentioned: false,
            },
        ),
        _ => None,
    }
}

pub open spec fn all_server_rows(rows: Seq<Vec<db::Value>>) -> bool {
    forall|i: int| 0 <= i < rows.len() ==> has_server_cells((#[trigger] rows[i])@)
}

/// The servers of the rows are the reply, in the order of the rows.
pub open spec fn lists_servers(event: Event, now: Timestamp, r: Step) -> bool {
    match event {
        Event::Rows(rows) => if all_server_rows(rows@) {
            &&& r matches Step::Done(f)
            &&& f.event is None
            &&& f.reply.status == OK
            &&& f.reply.body matches Body::Servers(v)
            &&& v@.len() == rows@.len()
            &&& forall|i: int| 0 <= i < v@.len() ==> is_server(rows@[i]@, now, #[trigger] v@[i])
        } else {
            r.stumbles()
        },
        _ => r.fails(event),
    }
}

pub fn end_list_servers(event: Event, now: Timestamp) -> (r: Step)
    ensures
        lists_servers(event, now, r),
{
    let rows = match event {
        Event::Rows(rows) => rows,
        event => {
            return fail(event);
        },
    };
    let mut out: Vec<Server> = Vec::new();
    let mut i: usize = 0;
    while i < rows.len()
        invariant
            event == Event::Rows(rows),
            i <= rows@.len(),
            out@.len() == i,
            forall|k: int| 0 <= k < i ==> has_server_cells((#[trigger] rows@[k])@),
            forall|k: int| 0 <= k < i ==> is_server(rows@[k]@, now, #[trigger] out@[k]),
        decreases rows@.len() - i,
    {
        match map_server(&rows[i], now) {
            Some(s) => out.push(s),
            None => {
                assert(!has_server_cells(rows@[i as int]@));
                assert(!all_server_rows(rows@));
                return stumble();
            },
        }
        i += 1;
    }
    reply(OK, Body::Servers(out))
}

/// How far the making of a server has come.
#[derive(Debug)]
pub enum CreateServer {
    /// The server is being stored,
    Storing { id: Uuid, user: Uuid, req: CreateServerRequest },
    /// then its first member, the one who made it,
    Joining { id: Uuid, req: CreateServerRequest },
    /// then its first channel.
    Opening { id: Uuid, req: CreateServerRequest },
}

/// The first step of `create_server`.
pub open spec fn begins_create_server(user: Uuid, req: CreateServerRequest, draw: Draw, r: Step) -> bool {
    if text::is_blank(req.name@) {
        r.refuses(BAD_REQUEST, "name required"@)
    } else {
        &&& r.executes(
            "INSERT INTO servers (id, name, description, created_at) VALUES (?1,?2,?3,?4)"@,
            seq![
                db::id_value(draw.id),
                db::text_value(req.name@),
                db::optional_value(db::optional_text(req.description)),
                db::text_value(draw.stamp@),
            ],
        )
        &&& r.state() == Stage::CreateServer(CreateServer::Storing { id: draw.id, user, req })
    }
}

/// Starts to make a server.
pub fn create_server(user: Uuid, req: CreateServerRequest, draw: Draw) -> (r: Step)
    ensures
        begins_create_server(user, req, draw, r),
        r.wf(),
{
    if text::blank(req.name.as_str()) {
        return refuse(BAD_REQUEST, "name required");
    }
    let s = db::statement4(
        "INSERT INTO servers (id, name, description, created_at) VALUES (?1,?2,?3,?4)",
        db::id_arg(draw.id),
        db::text_arg(req.name.as_str()),
        db::optional_arg(&req.description),
        db::text_arg(draw.stamp.as_str()),
    );
    Step::Ask(
        Stage::CreateServer(CreateServer::Storing { id: draw.id, user, req }),
        Action::Execute(s),
    )
}

impl CreateServer {
    pub open spec fn leads_to(self, event: Event, draw: Draw, r: Step) -> bool {
        match (self, event) {
            (CreateServer::Storing { id, user, req }, Event::Done) => {
                &&& r.executes(
                    "INSERT INTO server_members (server_id, user_id) VALUES (?1,?2)"@,
                    seq![db::id_value(id), db::id_value(user)],
                )
                &&& r.state() == Stage::CreateServer(CreateServer::Joining { id, req })
            },
            (CreateServer::Joining { id, req }, Event::Done) => {
                &&& r.executes(
                    "INSERT INTO channels (id, server_id, name, kind, position) VALUES (?1,?2,'general','text',0)"@,
                    seq![db::id_value(draw.id), db::id_value(id)],
                )
                &&& r.state() == Stage::CreateServer(CreateServer::Opening { id, req })
            },
            (CreateServer::Opening { id, req }, Event::Done) => r.replies(
                CREATED,
                Body::Server(
                    Server {
                        id,
                        name: req.name,
                        description: req.description,
                        created_at: draw.now,
                        unread: false,
                        mentioned: false,
                    },
                ),
            ),
            _ => r.fails(event),
        }
    }

    /// Goes on with the making of a server.
    pub fn next(self, event: Event, draw: Draw) -> (r: Step)
        ensures
            self.leads_to(event, draw, r),
            r.wf(),
    {
        match (self, event) {
            (CreateServer::Storing { id, user, req }, Event::Done) => {
                let s = db::statement2(
                    "INSERT INTO server_members (server_id, user_id) VALUES (?1,?2)",
                    db::id_arg(id),
                    db::id_arg(user),
                );
                Step::Ask(
                    Stage::CreateServer(CreateServer::Joining { id, req }),
                    Action::Execute(s),
                )
            },
            (CreateServer::Joining { id, req }, Event::Done) => {
                let s = db::statement2(
                    "INSERT INTO channels (id, server_id, name, kind, position) VALUES (?1,?2,'general','text',0)",
                    db::id_arg(draw.id),
                    db::id_arg(id),
                );
                Step::Ask(
                    Stage::CreateServer(CreateServer::Opening { id, req }),
                    Action::Execute(s),
                )
            },
            (CreateServer::Opening { id, req }, Event::Done) => reply(
                CREATED,
                Body::Server(
                    Server {
                        id,
                        name: req.name,
                        description: req.description,
                        created_at: draw.now,
                        unread: false,
                        mentioned: false,
                    },
                ),
            ),
            (_, event) => fail(event),
        }
    }
}

// ---------------------------------------------------------------------------
// Channels
// ---------------------------------------------------------------------------

/// The word that a kind of channel is stored as.
pub open spec fn kind_word(kind: ChannelKind) -> Seq<char> {
    match kind {
        ChannelKind::Text => "text"@,
        ChannelKind::Announcement => "announcement"@,
        ChannelKind::Thread => "thread"@,
        ChannelKind::ForumPost => "forum_post"@,
        ChannelKind::VoicePlaceholder => "voice_placeholder"@,
        ChannelKind::Direct => "direct"@,
    }
}

pub fn kind_text(kind: ChannelKind) -> (r: &'static str)
    ensures
        r@ == kind_word(kind),
{
    match kind {
        ChannelKind::Text => "text",
        ChannelKind::Announcement => "announcement",
        ChannelKind::Thread => "thread",
        ChannelKind::ForumPost => "forum_post",
        ChannelKind::VoicePlaceholder => "voice_placeholder",
        ChannelKind::Direct => "direct",
    }
}

/// The kind of channel that a stored word stands for. An unknown word stands for text.
pub open spec fn kind_of(word: Seq<char>) -> ChannelKind {
    if word == "thread"@ {
        ChannelKind::Thread
    } else if word == "forum_post"@ {
        ChannelKind::ForumPost
    } else if word == "direct"@ {
        ChannelKind::Direct
    } else if word == "announcement"@ {
        ChannelKind::Announcement
    } else if word == "voice_placeholder"@ {
        ChannelKind::VoicePlaceholder
    } else {
        ChannelKind::Text
    }
}

pub fn parse_kind(word: &str) -> (r: ChannelKind)
    ensures
        r == kind_of(word@),
{
    if text::same_text(word, "thread") {
        ChannelKind::Thread
    } else if text::same_text(word, "forum_post") {
        ChannelKind::ForumPost
    } else if text::same_text(word, "direct") {
        ChannelKind::Direct
    } else if text::same_text(word, "announcement") {
        ChannelKind::Announcement
    } else if text::same_text(word, "voice_placeholder") {
        ChannelKind::VoicePlaceholder
    } else {
        ChannelKind::Text
    }
}

/// A kind of channel is read back from the word that it was stored as.
pub proof fn law_kinds_are_read_back(kind: ChannelKind)
    ensures
        kind_of(kind_word(kind)) == kind,
{
    reveal_strlit("text");
    reveal_strlit("announcement");
    reveal_strlit("thread");
    reveal_strlit("forum_post");
    reveal_strlit("voice_placeholder");
    reveal_strlit("direct");
    assert("thread"@[0] == 't' && "thread"@[1] == 'h' && "text"@[0] == 't' && "text"@[1] == 'e');
    assert("forum_post"@[0] == 'f' && "direct"@[0] == 'd' && "announcement"@[0] == 'a'
        && "voice_placeholder"@[0] == 'v');
}

/// The first step of `list_channels`.
pub open spec fn begins_list_channels(server: Uuid, r: Step) -> bool {
    &&& r.queries(
        "SELECT id, server_id, parent_id, name, topic, kind, position FROM channels WHERE server_id=?1 ORDER BY position, name"@,
        seq![db::id_value(server)],
    )
    &&& r.state() == Stage::ListChannels
}

/// Starts to list the channels of a server.
pub fn list_channels(server: Uuid) -> (r: Step)
    ensures
        begins_list_channels(server, r),
        r.wf(),
{
    let s = db::statement1(
        "SELECT id, server_id, parent_id, name, topic, kind, position FROM channels WHERE server_id=?1 ORDER BY position, name",
        db::id_arg(server),
    );
    Step::Ask(Stage::ListChannels, Action::Query(s))
}

pub open spec fn has_channel_cells(row: Seq<db::Value>) -> bool {
    &&& db::text_at(row, 0) is Some
    &&& db::optional_at(row, 1) is Some
    &&& db::optional_at(row, 2) is Some
    &&& db::text_at(row, 3) is Some
    &&& db::optional_at(row, 4) is Some
    &&& db::text_at(row, 5) is Some
    &&& db::int_at(row, 6) is Some
}

/// The channel that a row tells of.
pub open spec fn channel_of(row: Seq<db::Value>) -> Channel {
    Channel {
        id: id::or_nil(id::parsed_uuid(db::text_at(row, 0)->0@)),
        server_id: db::optional_parsed(db::optional_at(row, 1)->0),
        parent_id: db::optional_parsed(db::optional_at(row, 2)->0),
        name: db::text_at(row, 3)->0,
        topic: db::optional_at(row, 4)->0,
        kind: kind_of(db::text_at(row, 5)->0@),
        position: db::int_at(row, 6)->0,
        unread_count: 0,
        mentioned: false,
        muted: false,
    }
}

fn map_channel(row: &Vec<db::Value>) -> (r: Option<Channel>)
    ensures
        r is Some <==> has_channel_cells(row@),
        r matches Some(c) ==> c == channel_of(row@),
{
    match (db::text_cell(row, 0), db::optional_cell(row, 1), db::optional_cell(row, 2)) {
        (Some(channel_id), Some(server_id), Some(parent_id)) => {
            match (
                db::text_cell(row, 3),
                db::optional_cell(row, 4),
                db::text_cell(row, 5),
                db::int_cell(row, 6),
            ) {
                (Some(name), Some(topic), Some(kind), Some(position)) => Some(
                    Channel {
                        id: Uuid::parse_or_nil(channel_id.as_str()),
                        server_id: db::stored_optional_id(&server_id),
                        parent_id: db::stored_optional_id(&parent_id),
                        name,
                        topic,
                        kind: parse_kind(kind.as_str()),
                        position,
                        unread_count: 0,
                        mentioned: false,
                        muted: false,
                    },
                ),
                _ => None,
            }
        },
        _ => None,
    }
}

pub open spec fn all_channel_rows(rows: Seq<Vec<db::Value>>) -> bool {
    forall|i: int| 0 <= i < rows.len() ==> has_channel_cells((#[trigger] rows[i])@)
}

/// The channels of the rows are the reply, in the order of the rows.
pub open spec fn lists_channels(event: Event, r: Step) -> bool {
    match event {
        Event::Rows(rows) => if all_channel_rows(rows@) {
            &&& r matches Step::Done(f)
            &&& f.event is None
            &&& f.reply.status == OK
            &&& f.reply.body matches Body::Channels(v)
            &&& v@ == rows@.map_values(|row: Vec<db::Value>| channel_of(row@))
        } else {
            r.stumbles()
        },
        _ => r.fails(event),
    }
}

pub fn end_list_channels(event: Event) -> (r: Step)
    ensures
        lists_channels(event, r),
{
    let rows = match event {
        Event::Rows(rows) => rows,
        event => {
            return fail(event);
        },
    };
    let mut out: Vec<Channel> = Vec::new();
    let mut i: usize = 0;
    while i < rows.len()
        invariant
            event == Event::Rows(rows),
            i <= rows@.len(),
            out@.len() == i,
            forall|k: int| 0 <= k < i ==> has_channel_cells((#[trigger] rows@[k])@),
            forall|k: int| 0 <= k < i ==> #[trigger] out@[k] == channel_of(rows@[k]@),
        decreases rows@.len() - i,
    {
        match map_channel(&rows[i]) {
            Some(c) => out.push(c),
            None => {
                assert(!has_channel_cells(rows@[i as int]@));
                assert(!all_channel_rows(rows@));
                return stumble();
            },
        }
        i += 1;
    }
    assert(out@ =~= rows@.map_values(|row: Vec<db::Value>| channel_of(row@)));
    reply(OK, Body::Channels(out))
}

/// The kind of channel that is asked for: text where none is.
pub open spec fn asked_kind(kind: Option<ChannelKind>) -> ChannelKind {
    match kind {
        Some(k) => k,
        None => ChannelKind::Text,
    }
}

/// The channel that a request makes.
pub open spec fn made_channel(channel: Uuid, server: Uuid, req: CreateChannelRequest) -> Channel {
    Channel {
        id: channel,
        server_id: Some(server),
        parent_id: None,
        name: req.name,
        topic: req.topic,
        kind: asked_kind(req.kind),
        position: 0,
        unread_count: 0,
        mentioned: false,
        muted: false,
    }
}

/// The first step of `create_channel`.
pub open spec fn begins_create_channel(server: Uuid, req: CreateChannelRequest, draw: Draw, r: Step) -> bool {
    if text::is_blank(req.name@) {
        r.refuses(BAD_REQUEST, "name required"@)
    } else {
        &&& r.executes(
            "INSERT INTO channels (id, server_id, name, topic, kind, position) VALUES (?1,?2,?3,?4,?5,0)"@,
            seq![
                db::id_value(draw.id),
                db::id_value(server),
                db::text_value(req.name@),
                db::optional_value(db::optional_text(req.topic)),
                db::text_value(kind_word(asked_kind(req.kind))),
            ],
        )
        &&& r.state() == Stage::CreateChannel(made_channel(draw.id, server, req))
    }
}

/// Starts to make a channel.
pub fn create_channel(server: Uuid, req: CreateChannelRequest, draw: Draw) -> (r: Step)
    ensures
        begins_create_channel(server, req, draw, r),
        r.wf(),
{
    if text::blank(req.name.as_str()) {
        return refuse(BAD_REQUEST, "name required");
    }
    let kind = match req.kind {
        Some(k) => k,
        None => ChannelKind::Text,
    };
    let s = db::statement5(
        "INSERT INTO channels (id, server_id, name, topic, kind, position) VALUES (?1,?2,?3,?4,?5,0)",
        db::id_arg(draw.id),
        db::id_arg(server),
        db::text_arg(req.name.as_str()),
        db::optional_arg(&req.topic),
        db::text_arg(kind_text(kind)),
    );
    let channel = Channel {
        id: draw.id,
        server_id: Some(server),
        parent_id: None,
        name: req.name,
        topic: req.topic,
        kind,
        position: 0,
        unread_count: 0,
        mentioned: false,
        muted: false,
    };
    Step::Ask(Stage::CreateChannel(channel), Action::Execute(s))
}

/// A stored channel is the reply, and everyone who listens is told of it.
pub open spec fn announces_channel(channel: Channel, event: Event, r: Step) -> bool {
    match event {
        Event::Done => r == Step::Done(
            Finish {
                event: Some(WsEvent::ChannelCreated { channel }),
                reply: Reply { status: CREATED, body: Body::Channel(channel) },
            },
        ),
        _ => r.fails(event),
    }
}

pub fn end_create_channel(channel: Channel, event: Event) -> (r: Step)
    ensures
        announces_channel(channel, event, r),
{
    match event {
        Event::Done => {
            let told = channel.clone();
            Step::Done(
                Finish {
                    event: Some(WsEvent::ChannelCreated { channel: told }),
                    reply: Reply { status: CREATED, body: Body::Channel(channel) },
                },
            )
        },
        event => fail(event),
    }
}

// ---------------------------------------------------------------------------
// Members
// ---------------------------------------------------------------------------

/// The first step of `list_members`.
pub open spec fn begins_list_members(server: Uuid, r: Step) -> bool {
    &&& r.queries(
        "SELECT u.id, u.name, u.display_name, u.bot, u.created_at FROM users u JOIN server_members m ON m.user_id=u.id WHERE m.server_id=?1 ORDER BY u.name"@,
        seq![db::id_value(server)],
    )
    &&& r.state() == Stage::ListMembers
}

/// Starts to list the members of a server.
pub fn list_members(server: Uuid) -> (r: Step)
    ensures
        begins_list_members(server, r),
        r.wf(),
{
    let s = db::statement1(
        "SELECT u.id, u.name, u.display_name, u.bot, u.created_at FROM users u JOIN server_members m ON m.user_id=u.id WHERE m.server_id=?1 ORDER BY u.name",
        db::id_arg(server),
    );
    Step::Ask(Stage::ListMembers, Action::Query(s))
}

/// The member that a row tells of: online, and without roles.
pub open spec fn is_member(row: Seq<db::Value>, now: Timestamp, m: Member) -> bool {
    &&& db::is_user(row, now, m.user)
    &&& m.user.avatar_url is None
    &&& m.presence == Presence::Online
    &&& m.roles@.len() == 0
}

pub open spec fn all_member_rows(rows: Seq<Vec<db::Value>>) -> bool {
    forall|i: int| 0 <= i < rows.len() ==> db::has_user_cells((#[trigger] rows[i])@)
}

/// The members of the rows are the reply, in the order of the rows.
pub open spec fn lists_members(event: Event, now: Timestamp, r: Step) -> bool {
    match event {
        Event::Rows(rows) => if all_member_rows(rows@) {
            &&& r matches Step::Done(f)
            &&& f.event is None
            &&& f.reply.status == OK
            &&& f.reply.body matches Body::Members(v)
            &&& v@.len() == rows@.len()
            &&& forall|i: int| 0 <= i < v@.len() ==> is_member(rows@[i]@, now, #[trigger] v@[i])
        } else {
            r.stumbles()
        },
        _ => r.fails(event),
    }
}

pub fn end_list_members(event: Event, now: Timestamp) -> (r: Step)
    ensures
        lists_members(event, now, r),
{
    let rows = match event {
        Event::Rows(rows) => rows,
        event => {
            return fail(event);
        },
    };
    let mut out: Vec<Member> = Vec::new();
    let mut i: usize = 0;
    while i < rows.len()
        invariant
            event == Event::Rows(rows),
            i <= rows@.len(),
            out@.len() == i,
            forall|k: int| 0 <= k < i ==> db::has_user_cells((#[trigger] rows@[k])@),
            forall|k: int| 0 <= k < i ==> is_member(rows@[k]@, now, #[trigger] out@[k]),
        decreases rows@.len() - i,
    {
        match db::basic_user(&rows[i], now) {
            Some(user) => out.push(
                Member { user, presence: Presence::Online, roles: Vec::new() },
            ),
            None => {
                assert(!db::has_user_cells(rows@[i as int]@));
                assert(!all_member_rows(rows@));
                return stumble();
            },
        }
        i += 1;
    }
    reply(OK, Body::Members(out))
}

} // verus!

//! What each request is answered, and what it changes on the way.

use crate::accounts;
use crate::accounts::{Auth, Authed, Login, UpdateMe};
use crate::calls::{has_rows, lemma_rereads, read_id, Call};
use crate::codec;
use crate::db;
use crate::db::{Value, ValueView};
use crate::exchange::{Action, Body, Draw, Event, Stage, Step};
use crate::id;
use crate::id::Uuid;
use crate::messages;
use crate::messages::{Deleting, Editing, History, Notifying, Reacting, Searching, Sending};
use crate::outcomes::{args, asks, ends_with, id_text, runs};
use crate::passwords;
use crate::protocol::{
    ChannelKind, CreateChannelRequest, CreateServerRequest, EditMessageRequest, LoginRequest,
    Presence, SetAvatarRequest, UpdateMeRequest, User, WsEvent,
};
use crate::readings::{
    is_time, lemma_end, lemma_message, lemma_user, read_optional_id, reads_message, tells_user,
};
use crate::rooms;
use crate::routes::{AppState, Request, Socket, SocketAction, SocketEvent};
use crate::text;
use crate::time::Timestamp;
use vstd::prelude::*;

verus! {

/// A call ends with a status and a text, and nobody is told of anything.
pub open spec fn is_refused(call: Call, status: u16, why: Seq<char>) -> bool {
    &&& call.steps.last() matches Step::Done(f)
    &&& f.event is None
    &&& f.reply.status == status
    &&& f.reply.body matches Body::Text(t)
    &&& t@ == why
}

/// The value of a text that may be missing.
pub open spec fn optional(s: Option<String>) -> ValueView {
    match s {
        Some(t) => ValueView::Text(t@),
        None => ValueView::Null,
    }
}

// ---------------------------------------------------------------------------
// Lists
// ---------------------------------------------------------------------------

/// A user is listed the servers that they are a member of, by name: one for each row, in
/// their order, with the cells `id, name, description, created_at`.
pub proof fn law_every_server_of_a_user_is_listed(
    state: AppState,
    user: User,
    token: String,
    draw: Draw,
    call: Call,
)
    requires
        call.follows(state),
        state.runs(user, token, Request::ListServers, draw, call.steps[0]),
        ends_with(call, 200),
    ensures
        call.steps.len() == 2,
        asks(
            call.steps[0],
            "SELECT s.id, s.name, s.description, s.created_at FROM servers s JOIN server_members m ON m.server_id=s.id WHERE m.user_id=?1 ORDER BY s.name"@,
        ),
        args(call.steps[0]) == seq![id_text(user.id)],
        ({
            &&& call.events[0] matches Event::Rows(rows)
            &&& call.steps[1] matches Step::Done(f)
            &&& f.event is None
            &&& f.reply.body matches Body::Servers(v)
            &&& v@.len() == rows@.len()
            &&& forall|i: int|
                0 <= i < rows@.len() ==> {
                    let s = #[trigger] v@[i];
                    let row = rows@[i]@;
                    &&& row[0]@ is Text && s.id == read_id(row[0]@->Text_0)
                    &&& row[1]@ == ValueView::Text(s.name@)
                    &&& row[2]@ == optional(s.description)
                    &&& is_time(s.created_at, row[3]@)
                    &&& !s.unread && !s.mentioned
                }
        }),
{
    if call.steps[0] is Done {
        lemma_end(state, call, 0);
    }
    assert(call.advances(state, 0));
    lemma_end(state, call, 1);
    let rows = call.events[0]->Rows_0@;
    let v = call.steps[1]->Done_0.reply.body->Servers_0@;
    assert forall|i: int| 0 <= i < rows.len() implies {
        let s = #[trigger] v[i];
        let row = rows[i]@;
        &&& row[0]@ is Text && s.id == read_id(row[0]@->Text_0)
        &&& row[1]@ == ValueView::Text(s.name@)
        &&& row[2]@ == optional(s.description)
        &&& is_time(s.created_at, row[3]@)
        &&& !s.unread && !s.mentioned
    } by {
        assert(rooms::is_server(rows[i]@, call.draws[0].now, v[i]));
    }
}

/// The word that each kind of channel is stored as. Any other word stands for text.
pub proof fn law_kinds_of_channels_have_words(word: Seq<char>)
    ensures
        rooms::kind_word(ChannelKind::Text) == "text"@,
        rooms::kind_word(ChannelKind::Announcement) == "announcement"@,
        rooms::kind_word(ChannelKind::Thread) == "thread"@,
        rooms::kind_word(ChannelKind::ForumPost) == "forum_post"@,
        rooms::kind_word(ChannelKind::VoicePlaceholder) == "voice_placeholder"@,
        rooms::kind_word(ChannelKind::Direct) == "direct"@,
        rooms::kind_of(word) == ChannelKind::Announcement <==> word == "announcement"@,
        rooms::kind_of(word) == ChannelKind::Thread <==> word == "thread"@,
        rooms::kind_of(word) == ChannelKind::ForumPost <==> word == "forum_post"@,
        rooms::kind_of(word) == ChannelKind::VoicePlaceholder <==> word == "voice_placeholder"@,
        rooms::kind_of(word) == ChannelKind::Direct <==> word == "direct"@,
{
    rooms::law_kinds_are_read_back(ChannelKind::Announcement);
    rooms::law_kinds_are_read_back(ChannelKind::Thread);
    rooms::law_kinds_are_read_back(ChannelKind::ForumPost);
    rooms::law_kinds_are_read_back(ChannelKind::VoicePlaceholder);
    rooms::law_kinds_are_read_back(ChannelKind::Direct);
}

/// The channels of a server are listed by position and name: one for each row, in their
/// order, with the cells `id, server_id, parent_id, name, topic, kind, position`.
pub proof fn law_every_channel_of_a_server_is_listed(
    state: AppState,
    user: User,
    token: String,
    server: Uuid,
    draw: Draw,
    call: Call,
)
    requires
        call.follows(state),
        state.runs(user, token, Request::ListChannels(server), draw, call.steps[0]),
        ends_with(call, 200),
    ensures
        call.steps.len() == 2,
        asks(
            call.steps[0],
            "SELECT id, server_id, parent_id, name, topic, kind, position FROM channels WHERE server_id=?1 ORDER BY position, name"@,
        ),
        args(call.steps[0]) == seq![id_text(server)],
        ({
            &&& call.events[0] matches Event::Rows(rows)
            &&& call.steps[1] matches Step::Done(f)
            &&& f.event is None
            &&& f.reply.body matches Body::Channels(v)
            &&& v@.len() == rows@.len()
            &&& forall|i: int|
                0 <= i < rows@.len() ==> {
                    let c = #[trigger] v@[i];
                    let row = rows@[i]@;
                    &&& row[0]@ is Text && c.id == read_id(row[0]@->Text_0)
                    &&& c.server_id == read_optional_id(row[1]@)
                    &&& c.parent_id == read_optional_id(row[2]@)
                    &&& row[3]@ == ValueView::Text(c.name@)
                    &&& row[4]@ == optional(c.topic)
                    &&& row[5]@ is Text && c.kind == rooms::kind_of(row[5]@->Text_0)
                    &&& row[6]@ == ValueView::Int(c.position)
                    &&& c.unread_count == 0 && !c.mentioned && !c.muted
                }
        }),
{
    if call.steps[0] is Done {
        lemma_end(state, call, 0);
    }
    assert(call.advances(state, 0));
    lemma_end(state, call, 1);
    let rows = call.events[0]->Rows_0@;
    let v = call.steps[1]->Done_0.reply.body->Channels_0@;
    assert forall|i: int| 0 <= i < rows.len() implies {
        let c = #[trigger] v[i];
        let row = rows[i]@;
        &&& row[0]@ is Text && c.id == read_id(row[0]@->Text_0)
        &&& c.server_id == read_optional_id(row[1]@)
        &&& c.parent_id == read_optional_id(row[2]@)
        &&& row[3]@ == ValueView::Text(c.name@)
        &&& row[4]@ == optional(c.topic)
        &&& row[5]@ is Text && c.kind == rooms::kind_of(row[5]@->Text_0)
        &&& row[6]@ == ValueView::Int(c.position)
        &&& c.unread_count == 0 && !c.mentioned && !c.muted
    } by {
        assert(rooms::has_channel_cells(rows[i]@));
        assert(v[i] == rooms::channel_of(rows[i]@));
    }
}

/// The members of a server are listed by name: one for each row, in their order, with the
/// cells `id, name, display_name, bot, created_at`; each of them online and without roles.
pub proof fn law_every_member_of_a_server_is_listed(
    state: AppState,
    user: User,
    token: String,
    server: Uuid,
    draw: Draw,
    call: Call,
)
    requires
        call.follows(state),
        state.runs(user, token, Request::ListMembers(server), draw, call.steps[0]),
        ends_with(call, 200),
    ensures
        call.steps.len() == 2,
        asks(
            call.steps[0],
            "SELECT u.id, u.name, u.display_name, u.bot, u.created_at FROM users u JOIN server_members m ON m.user_id=u.id WHERE m.server_id=?1 ORDER BY u.name"@,
        ),
        args(call.steps[0]) == seq![id_text(server)],
        ({
            &&& call.events[0] matches Event::Rows(rows)
            &&& call.steps[1] matches Step::Done(f)
            &&& f.event is None
            &&& f.reply.body matches Body::Members(v)
            &&& v@.len() == rows@.len()
            &&& forall|i: int|
                0 <= i < rows@.len() ==> {
                    let m = #[trigger] v@[i];
                    let row = rows@[i]@;
                    &&& row[0]@ is Text && m.user.id == read_id(row[0]@->Text_0)
                    &&& row[1]@ == ValueView::Text(m.user.name@)
                    &&& row[2]@ == optional(m.user.display_name)
                    &&& row[3]@ is Int && m.user.bot == (row[3]@->Int_0 != 0)
                    &&& is_time(m.user.created_at, row[4]@)
                    &&& m.user.avatar_url is None
                    &&& m.presence == Presence::Online
                    &&& m.roles@.len() == 0
                }
        }),
{
    if call.steps[0] is Done {
        lemma_end(state, call, 0);
    }
    assert(call.advances(state, 0));
    lemma_end(state, call, 1);
    let rows = call.events[0]->Rows_0@;
    let v = call.steps[1]->Done_0.reply.body->Members_0@;
    assert forall|i: int| 0 <= i < rows.len() implies {
        let m = #[trigger] v[i];
        let row = rows[i]@;
        &&& row[0]@ is Text && m.user.id == read_id(row[0]@->Text_0)
        &&& row[1]@ == ValueView::Text(m.user.name@)
        &&& row[2]@ == optional(m.user.display_name)
        &&& row[3]@ is Int && m.user.bot == (row[3]@->Int_0 != 0)
        &&& is_time(m.user.created_at, row[4]@)
        &&& m.user.avatar_url is None
        &&& m.presence == Presence::Online
        &&& m.roles@.len() == 0
    } by {
        assert(rooms::is_member(rows[i]@, call.draws[0].now, v[i]));
    }
}

// ---------------------------------------------------------------------------
// New servers and channels
// ---------------------------------------------------------------------------

/// A new server has the name and the description of the request, its maker for a member, and
/// a first channel. The reply is that server. A blank name is refused, and nothing is stored.
pub proof fn law_a_new_server_has_a_member_and_a_channel(
    state: AppState,
    user: User,
    token: String,
    req: CreateServerRequest,
    draw: Draw,
    call: Call,
)
    requires
        call.follows(state),
        state.runs(user, token, Request::CreateServer(req), draw, call.steps[0]),
    ensures
        text::is_blank(req.name@) ==> call.steps.len() == 1 && is_refused(
            call,
            400,
            "name required"@,
        ),
        ends_with(call, 201) ==> {
            &&& call.steps.len() == 4
            &&& runs(
                call.steps[0],
                "INSERT INTO servers (id, name, description, created_at) VALUES (?1,?2,?3,?4)"@,
            )
            &&& runs(
                call.steps[1],
                "INSERT INTO server_members (server_id, user_id) VALUES (?1,?2)"@,
            )
            &&& runs(
                call.steps[2],
                "INSERT INTO channels (id, server_id, name, kind, position) VALUES (?1,?2,'general','text',0)"@,
            )
            &&& call.steps[3] matches Step::Done(f)
            &&& f.event is None
            &&& f.reply.body matches Body::Server(s)
            &&& args(call.steps[0]).len() == 4
            &&& args(call.steps[0])[0] == id_text(s.id)
            &&& args(call.steps[0])[1] == ValueView::Text(req.name@)
            &&& args(call.steps[0])[2] == optional(req.description)
            &&& args(call.steps[0])[3] == ValueView::Text(draw.stamp@)
            &&& s.id == draw.id
            &&& args(call.steps[2])[0] == id_text(call.draws[1].id)
            &&& args(call.steps[1]) == seq![id_text(s.id), id_text(user.id)]
            &&& args(call.steps[2]).len() == 2
            &&& args(call.steps[2])[1] == id_text(s.id)
            &&& s.name@ == req.name@
            &&& s.description == req.description
            &&& !s.unread
            &&& !s.mentioned
        },
{
    if call.steps[0] is Done {
        lemma_end(state, call, 0);
    }
    if ends_with(call, 201) {
        assert(call.advances(state, 0));
        if call.steps[1] is Done {
            lemma_end(state, call, 1);
        }
        assert(call.advances(state, 1));
        if call.steps[2] is Done {
            lemma_end(state, call, 2);
        }
        assert(call.advances(state, 2));
        lemma_end(state, call, 3);
    }
}

/// A new channel is stored with the server, name, topic and kind of the request, as text
/// where no kind is named. It is the reply, and everyone who listens is told of the same. A
/// blank name is refused, and nothing is stored.
pub proof fn law_a_new_channel_is_told_to_everyone(
    state: AppState,
    user: User,
    token: String,
    server: Uuid,
    req: CreateChannelRequest,
    draw: Draw,
    call: Call,
)
    requires
        call.follows(state),
        state.runs(user, token, Request::CreateChannel(server, req), draw, call.steps[0]),
    ensures
        text::is_blank(req.name@) ==> call.steps.len() == 1 && is_refused(
            call,
            400,
            "name required"@,
        ),
        ends_with(call, 201) ==> {
            &&& call.steps.len() == 2
            &&& runs(
                call.steps[0],
                "INSERT INTO channels (id, server_id, name, topic, kind, position) VALUES (?1,?2,?3,?4,?5,0)"@,
            )
            &&& call.steps[1] matches Step::Done(f)
            &&& f.reply.body matches Body::Channel(c)
            &&& f.event == Some(WsEvent::ChannelCreated { channel: c })
            &&& args(call.steps[0]) == seq![
                id_text(c.id),
                id_text(server),
                ValueView::Text(req.name@),
                optional(req.topic),
                ValueView::Text(rooms::kind_word(c.kind)),
            ]
            &&& c.id == draw.id
            &&& c.server_id == Some(server)
            &&& c.parent_id is None
            &&& c.name@ == req.name@
            &&& c.topic == req.topic
            &&& c.kind == (match req.kind {
                Some(k) => k,
                None => ChannelKind::Text,
            })
            &&& c.position == 0 && c.unread_count == 0 && !c.mentioned && !c.muted
        },
{
    if call.steps[0] is Done {
        lemma_end(state, call, 0);
    }
    if ends_with(call, 201) {
        assert(call.advances(state, 0));
        lemma_end(state, call, 1);
    }
}

// ---------------------------------------------------------------------------
// Editing and deleting
// ---------------------------------------------------------------------------

/// Only the author edits a message: whoever else asks is refused, and nothing is written.
/// The author's call stores the new content with the message and with no other, replies with
/// the message as it is then, and tells everyone who listens of the same.
pub proof fn law_an_edit_stores_the_content(
    state: AppState,
    user: User,
    token: String,
    message: Uuid,
    req: EditMessageRequest,
    draw: Draw,
    call: Call,
)
    requires
        call.follows(state),
        state.runs(user, token, Request::Edit(message, req), draw, call.steps[0]),
        call.steps.last() is Done,
    ensures
        asks(call.steps[0], "SELECT author_id FROM messages WHERE id=?1"@),
        args(call.steps[0]) == seq![id_text(message)],
        call.events.len() > 0,
        call.events[0] matches Event::Rows(rows) ==> {
            &&& rows@.len() == 0 ==> is_refused(call, 404, "not found"@) && call.steps.len() == 2
            &&& rows@.len() > 0 && rows@[0]@.len() > 0 && rows@[0]@[0]@ is Text && rows@[0]@[0]@
                != id_text(user.id) ==> is_refused(call, 403, "not your message"@)
                && call.steps.len() == 2
        },
        ends_with(call, 200) ==> {
            &&& call.steps.len() == 6
            &&& has_rows(call.events[0]) && call.events[0]->Rows_0@[0]@[0]@ == id_text(user.id)
            &&& runs(call.steps[1], "UPDATE messages SET content=?1, edited_at=?2 WHERE id=?3"@)
            &&& args(call.steps[1]) == seq![
                ValueView::Text(req.content@),
                ValueView::Text(call.draws[0].stamp@),
                id_text(message),
            ]
            &&& args(call.steps[2]) == seq![id_text(message)]
            &&& forall|k: int|
                0 <= k < call.steps.len() && k != 1 ==> !(#[trigger] call.steps[k]).writes()
            &&& call.steps[5] matches Step::Done(f)
            &&& f.reply.body matches Body::Message(m)
            &&& reads_message(call, 2, user.id, m)
            &&& f.event matches Some(WsEvent::MessageEdited { message: told })
            &&& told.id == m.id
            &&& told.content@ == m.content@
            &&& told.channel_id == m.channel_id
            &&& told.author == m.author
            &&& told.created_at == m.created_at
            &&& told.edited_at == m.edited_at
            &&& told.reply_to == m.reply_to
            &&& told.pinned == m.pinned
            &&& told.reactions@ == m.reactions@
        },
{
    assert(call.advances(state, 0));
    if call.steps[1] is Done {
        lemma_end(state, call, 1);
    }
    if ends_with(call, 200) {
        assert(call.advances(state, 1));
        if call.steps[2] is Done {
            lemma_end(state, call, 2);
        }
        let h0 = lemma_edit_rereads(state, call, 2);
        if h0.1 is Missing || h0.1 is Broken {
            lemma_end(state, call, 3);
        }
        let h1 = lemma_edit_rereads(state, call, 3);
        if h1.1 is Missing || h1.1 is Broken {
            lemma_end(state, call, 4);
        }
        let h2 = lemma_edit_rereads(state, call, 4);
        lemma_end(state, call, 5);
        lemma_message(
            (h0.0, h1.0, h2.0),
            (call.events[2], call.events[3], call.events[4]),
            (call.draws[2].now, call.draws[3].now, call.draws[4].now),
            (h0.1->Ask_1, h1.1->Ask_1),
            h2.1->Message_0,
        );
    }
}

proof fn lemma_edit_rereads(state: AppState, call: Call, i: int) -> (r: (
    db::Hydration,
    db::Hydrated,
))
    requires
        call.follows(state),
        0 <= i < call.events.len(),
        call.steps[i] is Ask,
        call.steps[i].state() matches Stage::Editing(Editing::Rereading { .. }),
    ensures
        call.steps[i].state() == Stage::Editing(Editing::Rereading { hydration: r.0 }),
        r.0.leads_to(call.events[i], call.draws[i].now, r.1),
        Editing::rereads(call.steps[i + 1], r.1),
{
    assert(call.advances(state, i));
    let hydration = call.steps[i].state()->Editing_0->Rereading_hydration;
    let h = choose|h: db::Hydrated| #[trigger]
        hydration.leads_to(call.events[i], call.draws[i].now, h) && Editing::rereads(
            call.steps[i + 1],
            h,
        );
    assert(Editing::rereads(call.steps[i + 1], h));
    (hydration, h)
}

/// Only the author deletes a message: whoever else asks is refused, and nothing is written.
/// The author's call deletes the message and no other, and tells everyone who listens which
/// one is gone from which channel.
pub proof fn law_a_deletion_removes_the_message(
    state: AppState,
    user: User,
    token: String,
    message: Uuid,
    draw: Draw,
    call: Call,
)
    requires
        call.follows(state),
        state.runs(user, token, Request::Delete(message), draw, call.steps[0]),
        call.steps.last() is Done,
    ensures
        asks(call.steps[0], "SELECT author_id, channel_id FROM messages WHERE id=?1"@),
        args(call.steps[0]) == seq![id_text(message)],
        call.events.len() > 0,
        call.events[0] matches Event::Rows(rows) ==> {
            &&& rows@.len() == 0 ==> is_refused(call, 404, "not found"@) && call.steps.len() == 2
            &&& rows@.len() > 0 && rows@[0]@.len() > 1 && rows@[0]@[0]@ is Text && rows@[0]@[1]@
                is Text && rows@[0]@[0]@ != id_text(user.id) ==> is_refused(
                call,
                403,
                "not your message"@,
            ) && call.steps.len() == 2
        },
        ends_with(call, 204) ==> {
            &&& call.steps.len() == 3
            &&& has_rows(call.events[0]) && call.events[0]->Rows_0@[0]@[0]@ == id_text(user.id)
            &&& runs(call.steps[1], "DELETE FROM messages WHERE id=?1"@)
            &&& args(call.steps[1]) == seq![id_text(message)]
            &&& call.steps[2] matches Step::Done(f) && f.reply.body is Empty && f.event == Some(
                WsEvent::MessageDeleted {
                    channel_id: read_id(call.events[0]->Rows_0@[0]@[1]@->Text_0),
                    id: message,
                },
            )
        },
{
    assert(call.advances(state, 0));
    if call.steps[1] is Done {
        lemma_end(state, call, 1);
    }
    if ends_with(call, 204) {
        assert(call.advances(state, 1));
        lemma_end(state, call, 2);
    }
}

// ---------------------------------------------------------------------------
// Sessions
// ---------------------------------------------------------------------------

/// A login looks the account up by its name. Where there is one, and the password matches the
/// hash in its row, a token is stored for it, which is the reply together with the account;
/// else it is refused, and nothing is stored.
pub proof fn law_a_login_opens_a_session(
    state: AppState,
    authorization: Option<String>,
    req: LoginRequest,
    draw: Draw,
    call: Call,
)
    requires
        call.follows(state),
        state.begins(authorization, Request::Login(req), draw, call.steps[0]),
        call.steps.last() is Done,
    ensures
        asks(
            call.steps[0],
            "SELECT id, name, display_name, bot, created_at, password_hash FROM users WHERE name=?1"@,
        ),
        args(call.steps[0]) == seq![ValueView::Text(req.name@)],
        call.events.len() > 0,
        call.events[0] matches Event::Rows(rows) && rows@.len() == 0 ==> is_refused(
            call,
            401,
            "invalid credentials"@,
        ) && call.steps.len() == 2,
        ends_with(call, 200) ==> {
            &&& call.steps.len() == 3
            &&& has_rows(call.events[0])
            &&& runs(
                call.steps[1],
                "INSERT INTO tokens (token, user_id, created_at) VALUES (?1,?2,?3)"@,
            )
            &&& call.steps[2] matches Step::Done(f)
            &&& f.event is None
            &&& f.reply.body matches Body::Auth(a)
            &&& args(call.steps[1]) == seq![
                ValueView::Text(a.token@),
                id_text(a.user.id),
                ValueView::Text(call.draws[0].stamp@),
            ]
            &&& a.token@ == id::token_of(call.draws[0].second.0)
            &&& ({
                let row = call.events[0]->Rows_0@[0]@;
                &&& row[0]@ is Text && a.user.id == read_id(row[0]@->Text_0)
                &&& row[1]@ == ValueView::Text(a.user.name@)
                &&& row[2]@ == optional(a.user.display_name)
                &&& row[3]@ is Int && a.user.bot == (row[3]@->Int_0 != 0)
                &&& row[5]@ is Text && passwords::accepts(row[5]@->Text_0, req.password@)
            })
        },
        ends_with(call, 401) ==> is_refused(call, 401, "invalid credentials"@)
            && call.steps.len() == 2,
{
    assert(call.advances(state, 0));
    if call.steps[1] is Done {
        lemma_end(state, call, 1);
    } else {
        assert(call.advances(state, 1));
        lemma_end(state, call, 2);
    }
    let rows = call.events[0]->Rows_0@;
    if call.events[0] is Rows && rows.len() > 0 && db::has_login_cells(rows[0]@)
        && id::parsed_uuid(db::text_at(rows[0]@, 0)->0@) is Some {
        let right = passwords::accepts(db::text_at(rows[0]@, 5)->0@, req.password@);
        let u = choose|user: User| #[trigger]
            db::is_user(rows[0]@, call.draws[0].now, user) && user.avatar_url is None
                && Login::opens(user, right, call.draws[0], call.steps[1]);
        assert(Login::opens(u, right, call.draws[0], call.steps[1]));
    }
}

/// Logging out deletes the token that the request came with and nothing else.
pub proof fn law_a_logout_deletes_the_token(
    state: AppState,
    user: User,
    token: String,
    draw: Draw,
    call: Call,
)
    requires
        call.follows(state),
        state.runs(user, token, Request::Logout, draw, call.steps[0]),
        call.steps.last() is Done,
    ensures
        call.steps.len() == 2,
        runs(call.steps[0], "DELETE FROM tokens WHERE token=?1"@),
        args(call.steps[0]) == seq![ValueView::Text(token@)],
        call.events[0] is Done <==> ends_with(call, 204),
        ends_with(call, 204) ==> call.steps[1]->Done_0.reply.body is Empty,
{
    assert(call.advances(state, 0));
    lemma_end(state, call, 1);
}

/// Whoever sends a token in the header is the user whom the tokens' table names for it, as
/// the users' table has them; the request then goes on for that user.
pub proof fn law_the_token_says_who_asks(
    state: AppState,
    authorization: String,
    secret: Seq<char>,
    request: Request,
    draws: (Draw, Draw, Draw),
    owners: Vec<Vec<Value>>,
    users: Vec<Vec<Value>>,
    asked: Step,
    found: Step,
    r: Step,
) -> (known: (User, String))
    requires
        !(request is Health || request is Register || request is Login || request is GetAvatar),
        authorization@ == "Bearer "@ + secret,
        state.begins(Some(authorization), request, draws.0, asked),
        owners@.len() > 0,
        owners@[0]@.len() > 0,
        owners@[0]@[0]@ is Text,
        state.leads_to(asked.state(), Event::Rows(owners), draws.1, found),
        users@.len() > 0,
        db::has_stored_user_cells(users@[0]@),
        state.leads_to(found.state(), Event::Rows(users), draws.2, r),
    ensures
        asks(asked, "SELECT user_id FROM tokens WHERE token=?1"@),
        args(asked) == seq![ValueView::Text(secret)],
        asks(
            found,
            "SELECT id, name, display_name, bot, created_at, avatar FROM users WHERE id=?1"@,
        ),
        args(found) == seq![owners@[0]@[0]@],
        tells_user(users@[0]@, known.0),
        known.1@ == secret,
        state.runs(known.0, known.1, request, draws.2, r),
{
    reveal_strlit("Bearer ");
    let header = authorization@;
    assert(header.take("Bearer "@.len() as int) =~= "Bearer "@);
    assert(header.skip("Bearer "@.len() as int) =~= secret);
    let a = choose|a: Authed| #[trigger]
        accounts::begins_auth_user(Some(authorization), a) && state.proceeds(
            a,
            request,
            draws.0,
            asked,
        );
    assert(state.proceeds(a, request, draws.0, asked));
    let first = a->Ask_0;
    let b = choose|b: Authed| #[trigger]
        first.leads_to(Event::Rows(owners), draws.1.now, b) && state.proceeds(
            b,
            request,
            draws.1,
            found,
        );
    assert(state.proceeds(b, request, draws.1, found));
    let second = b->Ask_0;
    let c = choose|c: Authed| #[trigger]
        second.leads_to(Event::Rows(users), draws.2.now, c) && state.proceeds(
            c,
            request,
            draws.2,
            r,
        );
    assert(state.proceeds(c, request, draws.2, r));
    lemma_user(users@[0], draws.2.now, c->Known_user);
    (c->Known_user, c->Known_token)
}

/// Without a header that begins with `Bearer ` there is no access; with a token that nobody
/// has, or one of a user who is gone, there is none either.
pub proof fn law_strangers_are_refused(
    state: AppState,
    authorization: Option<String>,
    request: Request,
    token: String,
    none: Vec<Vec<Value>>,
    draw: Draw,
    asked: Step,
    unknown: Step,
    gone: Step,
)
    requires
        !(request is Health || request is Register || request is Login || request is GetAvatar),
        authorization matches Some(h) ==> h@.len() < 7 || h@.take(7) != "Bearer "@,
        state.begins(authorization, request, draw, asked),
        none@.len() == 0,
        state.leads_to(Stage::Auth(Auth::Token(token), request), Event::Rows(none), draw, unknown),
        state.leads_to(Stage::Auth(Auth::User(token), request), Event::Rows(none), draw, gone),
    ensures
        asked.refuses(401, "missing Bearer token"@),
        unknown.refuses(401, "invalid token"@),
        gone.refuses(401, "unknown user"@),
{
    reveal_strlit("Bearer ");
    let a = choose|a: Authed| #[trigger]
        accounts::begins_auth_user(authorization, a) && state.proceeds(a, request, draw, asked);
    assert(state.proceeds(a, request, draw, asked));
    let b = choose|b: Authed| #[trigger]
        Auth::Token(token).leads_to(Event::Rows(none), draw.now, b) && state.proceeds(
            b,
            request,
            draw,
            unknown,
        );
    assert(state.proceeds(b, request, draw, unknown));
    let c = choose|c: Authed| #[trigger]
        Auth::User(token).leads_to(Event::Rows(none), draw.now, c) && state.proceeds(
            c,
            request,
            draw,
            gone,
        );
    assert(state.proceeds(c, request, draw, gone));
}

/// What is refused of a registration and of a message before anything is looked up: names and
/// passwords that are too short or too long, and messages that are blank or too long.
pub proof fn law_what_is_refused_at_once(
    state: AppState,
    authorization: Option<String>,
    user: User,
    token: String,
    channel: Uuid,
    register: crate::protocol::RegisterRequest,
    send: crate::protocol::SendMessageRequest,
    draw: Draw,
    registered: Step,
    sent: Step,
)
    requires
        state.begins(authorization, Request::Register(register), draw, registered),
        state.runs(user, token, Request::Send(channel, send), draw, sent),
        vstd::utf8::encode_utf8(register.name@).len() <= usize::MAX,
        vstd::utf8::encode_utf8(register.password@).len() <= 0xffff_ffff,
        vstd::utf8::encode_utf8(send.content@).len() <= usize::MAX,
    ensures
        !state.allow_registration ==> registered.refuses(403, "registration disabled"@),
        state.allow_registration ==> ({
            let short = text::is_blank(register.name@) || vstd::utf8::encode_utf8(
                register.password@,
            ).len() < 4;
            let long = vstd::utf8::encode_utf8(register.name@).len() > 32;
            &&& short ==> registered.refuses(400, "name/password too short"@)
            &&& !short && long ==> registered.refuses(400, "name too long"@)
            &&& !short && !long ==> asks(registered, "SELECT id FROM users WHERE name=?1"@)
                && args(registered) == seq![ValueView::Text(register.name@)]
        }),
        text::is_blank(send.content@) ==> sent.refuses(400, "empty message"@),
        !text::is_blank(send.content@) && vstd::utf8::encode_utf8(send.content@).len() > 8000
            ==> sent.refuses(400, "message too long"@),
        !text::is_blank(send.content@) && vstd::utf8::encode_utf8(send.content@).len() <= 8000
            ==> sent is Ask && (send.nonce matches Some(n) ==> asks(
            sent,
            "SELECT id FROM messages WHERE nonce=?1"@,
        ) && args(sent) == seq![id_text(n)]),
{
    if state.allow_registration && !text::is_blank(register.name@) && vstd::utf8::encode_utf8(
        register.password@,
    ).len() >= 4 && vstd::utf8::encode_utf8(register.name@).len() <= 32 {
        let hashed = choose|hashed: Result<String, String>|
            passwords::hashes(hashed, register.password@) && #[trigger] accounts::checks_name(
                register,
                hashed,
                registered,
            );
        assert(accounts::checks_name(register, hashed, registered));
    }
}

// ---------------------------------------------------------------------------
// The profile and the image
// ---------------------------------------------------------------------------

/// A change of the profile that is taken stores the display name where one is sent, trimmed,
/// or removes it where that is blank; and the hash of a new password where one is sent, which
/// the password matches, upon which every other session of the user ends. Then the reply is
/// the account as it is stored. Nothing else is written.
pub proof fn law_a_profile_is_changed_as_asked(
    state: AppState,
    user: User,
    token: String,
    req: UpdateMeRequest,
    draw: Draw,
    call: Call,
)
    requires
        call.follows(state),
        state.runs(user, token, Request::UpdateMe(req), draw, call.steps[0]),
        ends_with(call, 200),
    ensures
        ({
            let d: int = if req.display_name is Some {
                1
            } else {
                0
            };
            let p: int = if req.password is Some {
                2
            } else {
                0
            };
            &&& call.steps.len() == d + p + 2
            &&& req.display_name matches Some(name) ==> runs(
                call.steps[0],
                "UPDATE users SET display_name=?1 WHERE id=?2"@,
            ) && args(call.steps[0]) == seq![
                if text::is_blank(name@) {
                    ValueView::Null
                } else {
                    ValueView::Text(text::trimmed(name@))
                },
                id_text(user.id),
            ] && text::utf8_len(name@) <= 64
            &&& req.password matches Some(password) ==> {
                &&& password@.len() >= 4
                &&& runs(call.steps[d], "UPDATE users SET password_hash=?1 WHERE id=?2"@)
                &&& args(call.steps[d]).len() == 2
                &&& args(call.steps[d])[0] is Text && passwords::accepts(
                    args(call.steps[d])[0]->Text_0,
                    password@,
                )
                &&& args(call.steps[d])[1] == id_text(user.id)
                &&& runs(call.steps[d + 1], "DELETE FROM tokens WHERE user_id=?1 AND token!=?2"@)
                &&& args(call.steps[d + 1]) == seq![id_text(user.id), ValueView::Text(token@)]
            }
            &&& asks(
                call.steps[d + p],
                "SELECT id, name, display_name, bot, created_at, avatar FROM users WHERE id=?1"@,
            )
            &&& args(call.steps[d + p]) == seq![id_text(user.id)]
            &&& has_rows(call.events[d + p])
            &&& call.steps.last() matches Step::Done(f)
            &&& f.event is None
            &&& f.reply.body matches Body::User(u)
            &&& tells_user(call.events[d + p]->Rows_0@[0]@, u)
        }),
{
    let d: int = if req.display_name is Some {
        1
    } else {
        0
    };
    if call.steps[0] is Done {
        lemma_end(state, call, 0);
    }
    assert(call.advances(state, 0));
    if d == 1 {
        if call.steps[1] is Done {
            lemma_end(state, call, 1);
        }
        assert(UpdateMe::takes_password(call.steps[1], user.id, token, req.password));
        assert(call.advances(state, 1));
    }
    assert(UpdateMe::takes_password(call.steps[d], user.id, token, req.password));
    if let Some(password) = req.password {
        let hashed = choose|hashed: Result<String, String>|
            passwords::hashes(hashed, password@) && #[trigger] UpdateMe::stores_password(
                user.id,
                token,
                hashed,
                call.steps[d],
            );
        assert(UpdateMe::stores_password(user.id, token, hashed, call.steps[d]));
        if call.steps[d + 1] is Done {
            lemma_end(state, call, d + 1);
        }
        assert(call.advances(state, d + 1));
        if call.steps[d + 2] is Done {
            lemma_end(state, call, d + 2);
        }
        assert(call.advances(state, d + 2));
        lemma_end(state, call, d + 3);
        lemma_user(
            call.events[d + 2]->Rows_0@[0],
            call.draws[d + 2].now,
            call.steps[d + 3]->Done_0.reply.body->User_0,
        );
    } else {
        lemma_end(state, call, d + 1);
        lemma_user(
            call.events[d]->Rows_0@[0],
            call.draws[d].now,
            call.steps[d + 1]->Done_0.reply.body->User_0,
        );
    }
}

/// A display name of more than 64 bytes, and a password of fewer than four characters, are
/// refused at once.
pub proof fn law_a_bad_profile_is_refused(
    state: AppState,
    user: User,
    token: String,
    req: UpdateMeRequest,
    draw: Draw,
    r: Step,
)
    requires
        state.runs(user, token, Request::UpdateMe(req), draw, r),
    ensures
        req.display_name matches Some(name) ==> text::utf8_len(name@) > 64 ==> r.refuses(
            400,
            "display name too long"@,
        ),
        req.display_name is None ==> (req.password matches Some(p) ==> p@.len() < 4 ==> r.refuses(
            400,
            "password too short"@,
        )),
{
}

/// The four kinds of images are known by their first bytes, and nothing else is an image.
pub proof fn law_images_are_known_by_their_first_bytes(size: Seq<u8>, rest: Seq<u8>, other: Seq<u8>)
    requires
        size.len() == 4,
    ensures
        accounts::avatar_mime(seq![0x89u8, 0x50, 0x4e, 0x47] + rest) == Some("image/png"@),
        accounts::avatar_mime(seq![0xffu8, 0xd8, 0xff] + rest) == Some("image/jpeg"@),
        accounts::avatar_mime(seq![0x47u8, 0x49, 0x46, 0x38] + rest) == Some("image/gif"@),
        rest.len() > 0 ==> accounts::avatar_mime(
            seq![0x52u8, 0x49, 0x46, 0x46] + size + seq![0x57u8, 0x45, 0x42, 0x50] + rest,
        ) == Some("image/webp"@),
        other.len() < 3 ==> accounts::avatar_mime(other) is None,
        accounts::avatar_mime(other) is Some ==> {
            ||| other.len() >= 4 && other[0] == 0x89 && other[1] == 0x50 && other[2] == 0x4e
                && other[3] == 0x47
            ||| other.len() >= 3 && other[0] == 0xff && other[1] == 0xd8 && other[2] == 0xff
            ||| other.len() >= 4 && other[0] == 0x47 && other[1] == 0x49 && other[2] == 0x46
                && other[3] == 0x38
            ||| other.len() >= 13 && other[0] == 0x52 && other[1] == 0x49 && other[2] == 0x46
                && other[3] == 0x46 && other[8] == 0x57 && other[9] == 0x45 && other[10] == 0x42
                && other[11] == 0x50
        },
{
    let png = seq![0x89u8, 0x50, 0x4e, 0x47] + rest;
    assert(png.take(4) =~= seq![0x89u8, 0x50, 0x4e, 0x47]);
    let jpeg = seq![0xffu8, 0xd8, 0xff] + rest;
    assert(jpeg.take(3) =~= seq![0xffu8, 0xd8, 0xff]);
    lemma_first_byte(jpeg, seq![0x89u8, 0x50, 0x4e, 0x47]);
    let gif = seq![0x47u8, 0x49, 0x46, 0x38] + rest;
    assert(gif.take(4) =~= seq![0x47u8, 0x49, 0x46, 0x38]);
    lemma_first_byte(gif, seq![0x89u8, 0x50, 0x4e, 0x47]);
    lemma_first_byte(gif, seq![0xffu8, 0xd8, 0xff]);
    let webp = seq![0x52u8, 0x49, 0x46, 0x46] + size + seq![0x57u8, 0x45, 0x42, 0x50] + rest;
    assert(webp.take(4) =~= seq![0x52u8, 0x49, 0x46, 0x46]);
    assert(webp.subrange(8, 12) =~= seq![0x57u8, 0x45, 0x42, 0x50]);
    lemma_first_byte(webp, seq![0x89u8, 0x50, 0x4e, 0x47]);
    lemma_first_byte(webp, seq![0xffu8, 0xd8, 0xff]);
    lemma_first_byte(webp, seq![0x47u8, 0x49, 0x46, 0x38]);
    if other.len() >= 3 {
        assert(other.take(3)[0] == other[0] && other.take(3)[1] == other[1] && other.take(3)[2]
            == other[2]);
    }
    if other.len() >= 4 {
        assert(other.take(4)[0] == other[0] && other.take(4)[1] == other[1] && other.take(4)[2]
            == other[2] && other.take(4)[3] == other[3]);
    }
    if other.len() >= 12 {
        let mark = other.subrange(8, 12);
        assert(mark[0] == other[8] && mark[1] == other[9] && mark[2] == other[10] && mark[3]
            == other[11]);
    }
}

proof fn lemma_first_byte(s: Seq<u8>, p: Seq<u8>)
    requires
        p.len() > 0,
    ensures
        p.len() <= s.len() && s.take(p.len() as int) == p ==> s[0] == p[0],
{
    if p.len() <= s.len() {
        assert(s.take(p.len() as int)[0] == s[0]);
    }
}

/// Where the image of a user is kept.
pub open spec fn image_path(data_dir: Seq<char>, user: Uuid) -> Seq<char> {
    data_dir + "/avatars/"@ + id::hyphenated_text(user.0)
}

proof fn lemma_image_path(data_dir: Seq<char>, user: Uuid)
    requires
        data_dir.len() > 0,
        data_dir.last() != '/',
    ensures
        accounts::avatar_file(data_dir, user) == image_path(data_dir, user),
{
    reveal_strlit("avatars");
    reveal_strlit("/avatars/");
    let dir = data_dir + seq!['/'] + "avatars"@;
    assert("avatars"@[0] == 'a');
    assert(dir.last() == 's');
    let name = id::hyphenated_text(user.0);
    assert(name[0] == id::hex_digit(user.0, 0)) by {
        let hex = id::simple_text(user.0);
        assert(hex.subrange(0, 8)[0] == hex[0]);
    }
    let digit = (user.0 >> 124u128) & 0xf;
    assert(digit < 16) by {
        let v = user.0;
        assert((v >> 124u128) & 0xf < 16) by (bit_vector);
    }
    assert(name[0] == id::hex_char(digit));
    assert(name[0] != '/');
    assert(dir + seq!['/'] + name =~= image_path(data_dir, user));
}

/// An image that is taken is stored byte for byte in the user's own file, and the account is
/// marked; then the reply is the account as it is stored. What is no base64, empty, larger
/// than a mebibyte or of another kind is refused, and nothing is written.
pub proof fn law_an_image_is_stored_for_its_user(
    state: AppState,
    user: User,
    token: String,
    req: SetAvatarRequest,
    draw: Draw,
    call: Call,
)
    requires
        call.follows(state),
        state.data_dir@.len() > 0,
        state.data_dir@.last() != '/',
        state.runs(user, token, Request::SetAvatar(req), draw, call.steps[0]),
    ensures
        ({
            let bytes = codec::base64_bytes(text::trimmed(req.data_base64@));
            let good = bytes is Some && 1 <= bytes->0.len() <= 1024 * 1024
                && accounts::avatar_mime(bytes->0) is Some;
            &&& !good ==> call.steps.len() == 1 && ends_with(call, 400)
            &&& good ==> (call.steps[0] matches Step::Ask(_, Action::WriteFile { path, bytes: b })
                && path@ == image_path(state.data_dir@, user.id) && b@ == bytes->0)
        }),
        ends_with(call, 200) ==> {
            &&& call.steps.len() == 4
            &&& runs(call.steps[1], "UPDATE users SET avatar=1 WHERE id=?1"@)
            &&& args(call.steps[1]) == seq![id_text(user.id)]
            &&& asks(
                call.steps[2],
                "SELECT id, name, display_name, bot, created_at, avatar FROM users WHERE id=?1"@,
            )
            &&& args(call.steps[2]) == seq![id_text(user.id)]
            &&& has_rows(call.events[2])
            &&& call.steps[3] matches Step::Done(f)
            &&& f.event is None
            &&& f.reply.body matches Body::User(u)
            &&& tells_user(call.events[2]->Rows_0@[0]@, u)
        },
{
    lemma_image_path(state.data_dir@, user.id);
    if call.steps[0] is Done {
        lemma_end(state, call, 0);
    }
    if ends_with(call, 200) {
        assert(call.advances(state, 0));
        if call.steps[1] is Done {
            lemma_end(state, call, 1);
        }
        assert(call.advances(state, 1));
        if call.steps[2] is Done {
            lemma_end(state, call, 2);
        }
        assert(call.advances(state, 2));
        lemma_end(state, call, 3);
        lemma_user(
            call.events[2]->Rows_0@[0],
            call.draws[2].now,
            call.steps[3]->Done_0.reply.body->User_0,
        );
    }
}

/// Removing the image of a user removes their own file, and then the mark, whether there was
/// a file or not.
pub proof fn law_an_image_is_removed(
    state: AppState,
    user: User,
    token: String,
    draw: Draw,
    call: Call,
)
    requires
        call.follows(state),
        state.data_dir@.len() > 0,
        state.data_dir@.last() != '/',
        state.runs(user, token, Request::DeleteAvatar, draw, call.steps[0]),
        call.steps.last() is Done,
    ensures
        call.steps.len() == 3,
        call.steps[0] matches Step::Ask(_, Action::RemoveFile(path)) && path@ == image_path(
            state.data_dir@,
            user.id,
        ),
        runs(call.steps[1], "UPDATE users SET avatar=0 WHERE id=?1"@),
        args(call.steps[1]) == seq![id_text(user.id)],
        call.events[1] is Done <==> ends_with(call, 204),
{
    lemma_image_path(state.data_dir@, user.id);
    assert(call.advances(state, 0));
    assert(call.advances(state, 1));
    lemma_end(state, call, 2);
}

/// Anyone gets the image of a user, byte for byte from the user's file, with its type and to
/// be kept for a day. Where there is no file there is no image.
pub proof fn law_an_image_is_served_to_anyone(
    state: AppState,
    authorization: Option<String>,
    user: Uuid,
    draw: Draw,
    call: Call,
)
    requires
        call.follows(state),
        state.data_dir@.len() > 0,
        state.data_dir@.last() != '/',
        state.begins(authorization, Request::GetAvatar(user), draw, call.steps[0]),
        call.steps.last() is Done,
    ensures
        call.steps.len() == 2,
        call.steps[0] matches Step::Ask(_, Action::ReadFile(path)) && path@ == image_path(
            state.data_dir@,
            user,
        ),
        call.events[0] matches Event::Bytes(bytes) ==> ends_with(call, 200) && (
        call.steps[1]->Done_0.reply.body matches Body::Image { mime, cache_control, bytes: b } && b@
            == bytes@ && cache_control@ == "public, max-age=86400"@ && mime@ == (
        match accounts::avatar_mime(bytes@) {
            Some(m) => m,
            None => "application/octet-stream"@,
        })),
        !(call.events[0] is Bytes) ==> is_refused(call, 404, "no avatar"@),
{
    lemma_image_path(state.data_dir@, user);
    assert(call.advances(state, 0));
    lemma_end(state, call, 1);
}

/// The server says that it is there, and who one is.
pub proof fn law_plain_questions_are_answered(
    state: AppState,
    authorization: Option<String>,
    user: User,
    token: String,
    draw: Draw,
    there: Step,
    me: Step,
)
    requires
        state.begins(authorization, Request::Health, draw, there),
        state.runs(user, token, Request::Me, draw, me),
    ensures
        there.refuses(200, "ok"@),
        me matches Step::Done(f) && f.event is None && f.reply.status == 200 && f.reply.body
            == Body::User(user),
{
}

// ---------------------------------------------------------------------------
// Live events
// ---------------------------------------------------------------------------

/// A socket passes every event on, as it is and to everyone, and closes where the client is
/// gone, nothing can be sent, or there is no more news. What the client says changes nothing.
pub proof fn law_news_are_passed_on(
    socket: Socket,
    news: WsEvent,
    now: Timestamp,
    passed: (Socket, SocketAction),
    event: SocketEvent,
    r: (Socket, SocketAction),
)
    requires
        socket.leads_to(SocketEvent::News(news), now, passed),
        socket.leads_to(event, now, r),
    ensures
        passed.0 == socket,
        passed.1 == SocketAction::Send(news),
        r.1 is Close <==> (event is SendFailed || event is Closed || event is NewsEnded),
        event is Received || event is Sent ==> r.0 == socket && r.1 is Wait,
        !(event is Database) ==> r.0 == socket,
        event is Database && socket is Open ==> r.0 is Open && r.1 is Wait,
        event matches SocketEvent::Database(e) ==> !(e is Rows) ==> r.0 is Open && r.1 is Wait,
{
}

/// A socket greets the user whose token it was opened with: the token's owner is looked up,
/// then the user, who is told the version of the protocol and who they are. From then on it
/// listens, and so it does where one of them is not found, without a greeting.
pub proof fn law_a_socket_greets_its_user(
    rows: Vec<Vec<Value>>,
    now: Timestamp,
    found: (Socket, SocketAction),
    greeted: (Socket, SocketAction),
)
    requires
        Socket::Token.leads_to(SocketEvent::Database(Event::Rows(rows)), now, found),
        Socket::User.leads_to(SocketEvent::Database(Event::Rows(rows)), now, greeted),
    ensures
        rows@.len() > 0 && rows@[0]@.len() > 0 && rows@[0]@[0]@ is Text ==> {
            &&& found.0 is User
            &&& found.1 matches SocketAction::Query(s) && s.is(
                "SELECT id, name, display_name, bot, created_at, avatar FROM users WHERE id=?1"@,
                seq![rows@[0]@[0]@],
            )
        },
        rows@.len() == 0 ==> found.0 is Open && found.1 is Wait && greeted.1 is Wait,
        greeted.0 is Open,
        rows@.len() > 0 && db::has_stored_user_cells(rows@[0]@) ==> (
        greeted.1 matches SocketAction::Send(WsEvent::Hello { protocol, user }) && protocol == 1
            && tells_user(rows@[0]@, user)),
{
    if rows@.len() > 0 && db::has_stored_user_cells(rows@[0]@) {
        lemma_user(rows@[0], now, greeted.1->Send_0->Hello_user);
    }
}

// ---------------------------------------------------------------------------
// Success and failure
// ---------------------------------------------------------------------------

/// A row has a text in a cell.
pub open spec fn has_text(row: Seq<Value>, i: int) -> bool {
    0 <= i < row.len() && row[i]@ is Text
}

/// A row has a text or nothing in a cell.
pub open spec fn may_have_text(row: Seq<Value>, i: int) -> bool {
    0 <= i < row.len() && (row[i]@ is Text || row[i]@ is Null)
}

/// A row has a number in a cell.
pub open spec fn has_number(row: Seq<Value>, i: int) -> bool {
    0 <= i < row.len() && row[i]@ is Int
}

/// A row `id, name, display_name, bot, created_at`.
pub open spec fn is_user_row(row: Seq<Value>) -> bool {
    has_text(row, 0) && has_text(row, 1) && may_have_text(row, 2) && has_number(row, 3)
        && has_text(row, 4)
}

/// A first row `id, name, display_name, bot, created_at, avatar`.
pub open spec fn finds_account(event: Event) -> bool {
    has_rows(event) && is_user_row(event->Rows_0@[0]@) && has_number(event->Rows_0@[0]@, 5)
}

/// Rows of which each begins with a text.
pub open spec fn finds_texts(event: Event) -> bool {
    event matches Event::Rows(rows) && forall|i: int|
        0 <= i < rows@.len() ==> has_text((#[trigger] rows@[i])@, 0)
}

/// What the reading of a message waits for: its row, which may be gone, its author, and its
/// reactions.
pub open spec fn goes_on_reading(stage: db::HydrationStage, event: Event, may_be_gone: bool) -> bool {
    &&& event is Rows
    &&& match stage {
        db::HydrationStage::Row => if event->Rows_0@.len() == 0 {
            may_be_gone
        } else {
            let row = event->Rows_0@[0]@;
            has_text(row, 0) && has_text(row, 1) && has_text(row, 2) && has_text(row, 3)
                && has_text(row, 4) && may_have_text(row, 5) && may_have_text(row, 6)
                && has_number(row, 7)
        },
        db::HydrationStage::Author(_) => finds_account(event),
        db::HydrationStage::Reactions(_, _) => forall|i: int|
            0 <= i < event->Rows_0@.len() ==> has_text((#[trigger] event->Rows_0@[i])@, 0)
                && has_number(event->Rows_0@[i]@, 1) && 2 < event->Rows_0@[i]@.len() && !(
            event->Rows_0@[i]@[2]@ is Text),
    }
}

/// What came of an action is what the request waits for.
pub open spec fn is_expected(stage: Stage, event: Event) -> bool {
    match stage {
        Stage::Register(s) => match s {
            accounts::Register::Checking(_, _) => event matches Event::Rows(rows) && rows@.len()
                == 0,
            accounts::Register::Listing { .. } => finds_texts(event),
            accounts::Register::Joining { .. } => true,
            accounts::Register::Reloading { .. } => finds_account(event),
            _ => event is Done,
        },
        Stage::Login(s) => match s {
            Login::Finding { password } => has_rows(event) && is_user_row(event->Rows_0@[0]@)
                && has_text(event->Rows_0@[0]@, 5) && id::parsed_uuid(
                event->Rows_0@[0]@[0]@->Text_0,
            ) is Some && passwords::accepts(event->Rows_0@[0]@[5]@->Text_0, password@),
            Login::Opening { .. } => event is Done,
        },
        Stage::Logout => event is Done,
        Stage::UpdateMe(s) => match s {
            UpdateMe::Naming { password, .. } => event is Done && (password matches Some(p)
                ==> p@.len() >= 4 && vstd::utf8::encode_utf8(p@).len() <= 0xffff_ffff),
            UpdateMe::Reloading => finds_account(event),
            _ => event is Done,
        },
        Stage::SetAvatar(s) => if s is Reloading {
            finds_account(event)
        } else {
            event is Done
        },
        Stage::DeleteAvatar(_) => true,
        Stage::UnmarkAvatar => event is Done,
        Stage::GetAvatar => event is Bytes,
        Stage::ListServers => event matches Event::Rows(rows) && forall|i: int|
            0 <= i < rows@.len() ==> has_text((#[trigger] rows@[i])@, 0) && has_text(rows@[i]@, 1)
                && may_have_text(rows@[i]@, 2) && has_text(rows@[i]@, 3),
        Stage::CreateServer(_) => event is Done,
        Stage::ListChannels => event matches Event::Rows(rows) && forall|i: int|
            0 <= i < rows@.len() ==> has_text((#[trigger] rows@[i])@, 0) && may_have_text(
                rows@[i]@,
                1,
            ) && may_have_text(rows@[i]@, 2) && has_text(rows@[i]@, 3) && may_have_text(
                rows@[i]@,
                4,
            ) && has_text(rows@[i]@, 5) && has_number(rows@[i]@, 6),
        Stage::CreateChannel(_) => event is Done,
        Stage::ListMembers => event matches Event::Rows(rows) && forall|i: int|
            0 <= i < rows@.len() ==> is_user_row((#[trigger] rows@[i])@),
        Stage::History(s) => match s {
            History::Listing { .. } => finds_texts(event),
            History::Reading { hydration, .. } => goes_on_reading(hydration.stage, event, true),
        },
        Stage::Sending(s) => match s {
            Sending::Looking { .. } => event matches Event::Rows(rows) && (rows@.len() > 0
                ==> has_text(rows@[0]@, 0)),
            Sending::Recalling { hydration, .. } => goes_on_reading(hydration.stage, event, true),
            Sending::Storing { .. } => event is Done,
            Sending::Rereading { hydration } => goes_on_reading(hydration.stage, event, false),
            Sending::Naming { .. } => event matches Event::Rows(rows) && forall|i: int|
                0 <= i < rows@.len() ==> has_text((#[trigger] rows@[i])@, 0) && has_text(
                    rows@[i]@,
                    1,
                ),
            Sending::Telling { .. } => true,
        },
        Stage::Editing(s) => match s {
            Editing::Checking { me, .. } => has_rows(event) && event->Rows_0@[0]@.len() > 0
                && event->Rows_0@[0]@[0]@ == id_text(me),
            Editing::Storing { .. } => event is Done,
            Editing::Rereading { hydration } => goes_on_reading(hydration.stage, event, false),
        },
        Stage::Deleting(s) => match s {
            Deleting::Checking { me, .. } => has_rows(event) && event->Rows_0@[0]@.len() > 0
                && event->Rows_0@[0]@[0]@ == id_text(me) && has_text(event->Rows_0@[0]@, 1),
            Deleting::Removing { .. } => event is Done,
        },
        Stage::Reacting(s) => match s {
            Reacting::Checking { .. } => has_rows(event) && has_text(event->Rows_0@[0]@, 0)
                && has_text(event->Rows_0@[0]@, 1),
            Reacting::Looking { .. } => event is Rows,
            Reacting::Storing { .. } => event is Done,
            Reacting::Rereading { hydration, .. } => goes_on_reading(
                hydration.stage,
                event,
                false,
            ),
        },
        Stage::Searching(s) => match s {
            Searching::Listing { .. } => finds_texts(event),
            Searching::Reading { hydration, .. } => goes_on_reading(hydration.stage, event, true),
            Searching::Placing { .. } => true,
        },
        Stage::Notifying(s) => match s {
            Notifying::Listing { .. } => event matches Event::Rows(rows) && forall|i: int|
                0 <= i < rows@.len() ==> has_text((#[trigger] rows@[i])@, 0) && has_text(
                    rows@[i]@,
                    1,
                ) && has_text(rows@[i]@, 2) && has_text(rows@[i]@, 3) && has_text(rows@[i]@, 4)
                    && has_number(rows@[i]@, 5),
            Notifying::Reading { hydration, .. } => goes_on_reading(hydration.stage, event, true),
        },
        Stage::Auth(_, _) => false,
    }
}

/// Both are stages of the same request.
pub open spec fn same_request(a: Stage, b: Stage) -> bool {
    match a {
        Stage::Register(_) => b is Register,
        Stage::Login(_) => b is Login,
        Stage::UpdateMe(_) => b is UpdateMe,
        Stage::SetAvatar(_) => b is SetAvatar,
        Stage::DeleteAvatar(_) => b is UnmarkAvatar,
        Stage::CreateServer(_) => b is CreateServer,
        Stage::History(_) => b is History,
        Stage::Sending(_) => b is Sending,
        Stage::Editing(_) => b is Editing,
        Stage::Deleting(_) => b is Deleting,
        Stage::Reacting(_) => b is Reacting,
        Stage::Searching(_) => b is Searching,
        Stage::Notifying(_) => b is Notifying,
        _ => false,
    }
}

/// Where every action gives what the request waits for, the request goes on until it ends,
/// and ends with success: with 201 where something was made, with 204 where there is nothing
/// to say, and else with 200.
pub proof fn law_what_is_expected_leads_to_success(
    state: AppState,
    stage: Stage,
    event: Event,
    draw: Draw,
    r: Step,
)
    requires
        is_expected(stage, event),
        state.leads_to(stage, event, draw, r),
    ensures
        match r {
            Step::Ask(next, _) => same_request(stage, next),
            Step::Done(f) => f.reply.status == (match stage {
                Stage::Register(_) => 201u16,
                Stage::CreateServer(_) => 201,
                Stage::CreateChannel(_) => 201,
                Stage::Sending(s) => if s is Recalling {
                    200
                } else {
                    201
                },
                Stage::Logout => 204,
                Stage::UnmarkAvatar => 204,
                Stage::Deleting(_) => 204,
                _ => 200,
            }),
        },
{
    lemma_expected_cells(stage, event);
    match stage {
        Stage::Login(Login::Finding { password }) => {
            let rows = event->Rows_0@;
            let right = passwords::accepts(db::text_at(rows[0]@, 5)->0@, password@);
            let u = choose|user: User| #[trigger]
                db::is_user(rows[0]@, draw.now, user) && user.avatar_url is None && Login::opens(
                    user,
                    right,
                    draw,
                    r,
                );
            assert(Login::opens(u, right, draw, r));
        },
        Stage::UpdateMe(UpdateMe::Naming { id, token, password }) => {
            if let Some(p) = password {
                let hashed = choose|hashed: Result<String, String>|
                    passwords::hashes(hashed, p@) && #[trigger] UpdateMe::stores_password(
                        id,
                        token,
                        hashed,
                        r,
                    );
                assert(UpdateMe::stores_password(id, token, hashed, r));
            }
        },
        Stage::History(History::Reading { me, ids, at, has_more, items, hydration }) => {
            let h = choose|h: db::Hydrated| #[trigger]
                hydration.leads_to(event, draw.now, h) && History::takes(
                    r,
                    h,
                    me@,
                    ids@,
                    at as int,
                    has_more,
                    items@,
                );
            assert(History::takes(r, h, me@, ids@, at as int, has_more, items@));
        },
        Stage::Sending(Sending::Recalling { me, channel, req, hydration }) => {
            let h = choose|h: db::Hydrated| #[trigger]
                hydration.leads_to(event, draw.now, h) && Sending::recalls(
                    r,
                    h,
                    me,
                    channel,
                    req,
                    draw,
                );
            assert(Sending::recalls(r, h, me, channel, req, draw));
        },
        Stage::Sending(Sending::Rereading { hydration }) => {
            let h = choose|h: db::Hydrated| #[trigger]
                hydration.leads_to(event, draw.now, h) && Sending::rereads(r, h);
            assert(Sending::rereads(r, h));
        },
        Stage::Editing(Editing::Rereading { hydration }) => {
            let h = choose|h: db::Hydrated| #[trigger]
                hydration.leads_to(event, draw.now, h) && Editing::rereads(r, h);
            assert(Editing::rereads(r, h));
        },
        Stage::Reacting(Reacting::Rereading { id, channel, hydration }) => {
            let h = choose|h: db::Hydrated| #[trigger]
                hydration.leads_to(event, draw.now, h) && Reacting::rereads(r, h, id, channel);
            assert(Reacting::rereads(r, h, id, channel));
        },
        Stage::Searching(Searching::Reading { me, filter, ids, at, found, hydration }) => {
            let h = choose|h: db::Hydrated| #[trigger]
                hydration.leads_to(event, draw.now, h) && Searching::takes(
                    r,
                    h,
                    me@,
                    filter,
                    ids@,
                    at as int,
                    found@,
                );
            assert(Searching::takes(r, h, me@, filter, ids@, at as int, found@));
        },
        Stage::Notifying(Notifying::Reading { me, rows, at, found, hydration }) => {
            let h = choose|h: db::Hydrated| #[trigger]
                hydration.leads_to(event, draw.now, h) && Notifying::takes(
                    r,
                    h,
                    me@,
                    rows@,
                    at as int,
                    found@,
                    draw.now,
                );
            assert(Notifying::takes(r, h, me@, rows@, at as int, found@, draw.now));
        },
        _ => {},
    }
}

/// The cells that are expected are the ones that are read.
proof fn lemma_expected_cells(stage: Stage, event: Event)
    requires
        is_expected(stage, event),
    ensures
        event matches Event::Rows(rows) ==> {
            &&& stage is ListServers ==> rooms::all_server_rows(rows@)
            &&& stage is ListChannels ==> rooms::all_channel_rows(rows@)
            &&& stage is ListMembers ==> rooms::all_member_rows(rows@)
            &&& stage matches Stage::Register(accounts::Register::Listing { .. })
                ==> db::all_text_rows(rows@)
            &&& stage matches Stage::History(History::Listing { .. }) ==> db::all_text_rows(rows@)
            &&& stage matches Stage::Searching(Searching::Listing { .. }) ==> db::all_text_rows(
                rows@,
            )
            &&& stage matches Stage::Sending(Sending::Naming { .. }) ==> messages::all_named_rows(
                rows@,
            )
            &&& stage matches Stage::Notifying(Notifying::Listing { .. })
                ==> messages::all_notification_rows(rows@)
            &&& (match stage {
                Stage::History(History::Reading { hydration, .. }) => hydration.stage is Reactions,
                Stage::Sending(Sending::Recalling { hydration, .. }) => hydration.stage
                    is Reactions,
                Stage::Sending(Sending::Rereading { hydration }) => hydration.stage is Reactions,
                Stage::Editing(Editing::Rereading { hydration }) => hydration.stage is Reactions,
                Stage::Reacting(Reacting::Rereading { hydration, .. }) => hydration.stage
                    is Reactions,
                Stage::Searching(Searching::Reading { hydration, .. }) => hydration.stage
                    is Reactions,
                Stage::Notifying(Notifying::Reading { hydration, .. }) => hydration.stage
                    is Reactions,
                _ => false,
            }) ==> db::all_reaction_rows(rows@)
        },
{
}

/// An action that fails ends the request with status 500 and the reason, and nobody is told of
/// anything. Only what a request can do without is passed over: a server that cannot be
/// joined, a notification that cannot be stored, the server of a channel that cannot be looked
/// up, and the file of an image.
pub proof fn law_failures_end_a_request(
    state: AppState,
    stage: Stage,
    why: String,
    draw: Draw,
    r: Step,
)
    requires
        state.leads_to(stage, Event::Failed(why), draw, r),
        !(stage matches Stage::Register(accounts::Register::Joining { .. })),
        !(stage matches Stage::Sending(Sending::Telling { .. })),
        !(stage matches Stage::Searching(Searching::Placing { .. })),
        !(stage is DeleteAvatar),
        !(stage is GetAvatar),
    ensures
        r.refuses(500, why@),
{
    let event = Event::Failed(why);
    match stage {
        Stage::Auth(auth, request) => {
            let a = choose|a: Authed| #[trigger]
                auth.leads_to(event, draw.now, a) && state.proceeds(a, request, draw, r);
            assert(state.proceeds(a, request, draw, r));
        },
        Stage::History(History::Reading { me, ids, at, has_more, items, hydration }) => {
            let h = choose|h: db::Hydrated| #[trigger]
                hydration.leads_to(event, draw.now, h) && History::takes(
                    r,
                    h,
                    me@,
                    ids@,
                    at as int,
                    has_more,
                    items@,
                );
            assert(History::takes(r, h, me@, ids@, at as int, has_more, items@));
        },
        Stage::Sending(Sending::Recalling { me, channel, req, hydration }) => {
            let h = choose|h: db::Hydrated| #[trigger]
                hydration.leads_to(event, draw.now, h) && Sending::recalls(
                    r,
                    h,
                    me,
                    channel,
                    req,
                    draw,
                );
            assert(Sending::recalls(r, h, me, channel, req, draw));
        },
        Stage::Sending(Sending::Rereading { hydration }) => {
            let h = choose|h: db::Hydrated| #[trigger]
                hydration.leads_to(event, draw.now, h) && Sending::rereads(r, h);
            assert(Sending::rereads(r, h));
        },
        Stage::Editing(Editing::Rereading { hydration }) => {
            let h = choose|h: db::Hydrated| #[trigger]
                hydration.leads_to(event, draw.now, h) && Editing::rereads(r, h);
            assert(Editing::rereads(r, h));
        },
        Stage::Reacting(Reacting::Rereading { id, channel, hydration }) => {
            let h = choose|h: db::Hydrated| #[trigger]
                hydration.leads_to(event, draw.now, h) && Reacting::rereads(r, h, id, channel);
            assert(Reacting::rereads(r, h, id, channel));
        },
        Stage::Searching(Searching::Reading { me, filter, ids, at, found, hydration }) => {
            let h = choose|h: db::Hydrated| #[trigger]
                hydration.leads_to(event, draw.now, h) && Searching::takes(
                    r,
                    h,
                    me@,
                    filter,
                    ids@,
                    at as int,
                    found@,
                );
            assert(Searching::takes(r, h, me@, filter, ids@, at as int, found@));
        },
        Stage::Notifying(Notifying::Reading { me, rows, at, found, hydration }) => {
            let h = choose|h: db::Hydrated| #[trigger]
                hydration.leads_to(event, draw.now, h) && Notifying::takes(
                    r,
                    h,
                    me@,
                    rows@,
                    at as int,
                    found@,
                    draw.now,
                );
            assert(Notifying::takes(r, h, me@, rows@, at as int, found@, draw.now));
        },
        _ => {},
    }
}

/// A name that is taken cannot be registered again, and nothing is stored then.
pub proof fn law_a_taken_name_is_refused(
    state: AppState,
    authorization: Option<String>,
    req: crate::protocol::RegisterRequest,
    draw: Draw,
    call: Call,
)
    requires
        call.follows(state),
        state.begins(authorization, Request::Register(req), draw, call.steps[0]),
        call.events.len() > 0,
        has_rows(call.events[0]),
    ensures
        asks(call.steps[0], "SELECT id FROM users WHERE name=?1"@),
        args(call.steps[0]) == seq![ValueView::Text(req.name@)],
        call.steps.len() == 2,
        is_refused(call, 409, "name taken"@),
{
    assert(call.advances(state, 0));
    lemma_end(state, call, 1);
}

/// A reaction is toggled only on a message that is there; everyone who listens is told in
/// which channel it is.
pub proof fn law_a_reaction_needs_a_message(
    state: AppState,
    user: User,
    token: String,
    message: Uuid,
    emoji: String,
    draw: Draw,
    call: Call,
)
    requires
        call.follows(state),
        state.runs(user, token, Request::React(message, emoji), draw, call.steps[0]),
        call.steps.last() is Done,
    ensures
        asks(call.steps[0], "SELECT id, channel_id FROM messages WHERE id=?1"@),
        args(call.steps[0]) == seq![id_text(message)],
        call.events.len() > 0,
        call.events[0] matches Event::Rows(rows) && rows@.len() == 0 ==> is_refused(
            call,
            404,
            "not found"@,
        ) && call.steps.len() == 2,
        ends_with(call, 200) ==> {
            &&& call.steps.len() == 7
            &&& has_rows(call.events[0])
            &&& asks(
                call.steps[1],
                "SELECT emoji FROM reactions WHERE message_id=?1 AND user_id=?2 AND emoji=?3"@,
            )
            &&& args(call.steps[1]) == seq![
                id_text(message),
                id_text(user.id),
                ValueView::Text(emoji@),
            ]
            &&& args(call.steps[2]) == args(call.steps[1])
            &&& runs(
                call.steps[2],
                if has_rows(call.events[1]) {
                    "DELETE FROM reactions WHERE message_id=?1 AND user_id=?2 AND emoji=?3"@
                } else {
                    "INSERT INTO reactions (message_id, user_id, emoji) VALUES (?1,?2,?3)"@
                },
            )
            &&& args(call.steps[3]) == seq![id_text(message)]
            &&& call.steps[6] matches Step::Done(f)
            &&& f.reply.body matches Body::Message(m)
            &&& reads_message(call, 3, user.id, m)
            &&& f.event matches Some(
                WsEvent::ReactionUpdated { channel_id, message_id, reactions },
            )
            &&& channel_id == read_id(call.events[0]->Rows_0@[0]@[1]@->Text_0)
            &&& message_id == message
            &&& reactions@ == m.reactions@
        },
{
    assert(call.advances(state, 0));
    if call.steps[1] is Done {
        lemma_end(state, call, 1);
    }
    if ends_with(call, 200) {
        assert(call.advances(state, 1));
        if call.steps[2] is Done {
            lemma_end(state, call, 2);
        }
        assert(call.advances(state, 2));
        if call.steps[3] is Done {
            lemma_end(state, call, 3);
        }
        let x0 = lemma_rereads(state, call, 3);
        if x0 is Missing || x0 is Broken {
            lemma_end(state, call, 4);
        }
        let x1 = lemma_rereads(state, call, 4);
        if x1 is Missing || x1 is Broken {
            lemma_end(state, call, 5);
        }
        let x2 = lemma_rereads(state, call, 5);
        lemma_end(state, call, 6);
        lemma_message(
            (
                call.steps[3].state()->Reacting_0->Rereading_hydration,
                call.steps[4].state()->Reacting_0->Rereading_hydration,
                call.steps[5].state()->Reacting_0->Rereading_hydration,
            ),
            (call.events[3], call.events[4], call.events[5]),
            (call.draws[3].now, call.draws[4].now, call.draws[5].now),
            (x0->Ask_1, x1->Ask_1),
            x2->Message_0,
        );
    }
}

/// What needs nothing to be checked before is begun at once.
pub proof fn law_requests_are_begun(
    state: AppState,
    user: User,
    token: String,
    request: Request,
    draw: Draw,
    r: Step,
)
    requires
        state.runs(user, token, request, draw, r),
    ensures
        request is Login ==> (r matches Step::Ask(s, _) && s is Login),
        request is GetAvatar ==> (r matches Step::Ask(s, _) && s is GetAvatar),
        request is Logout ==> (r matches Step::Ask(s, _) && s is Logout),
        request is DeleteAvatar ==> (r matches Step::Ask(s, _) && s is DeleteAvatar),
        request is ListServers ==> (r matches Step::Ask(s, _) && s is ListServers),
        request is ListChannels ==> (r matches Step::Ask(s, _) && s is ListChannels),
        request is ListMembers ==> (r matches Step::Ask(s, _) && s is ListMembers),
        request is History ==> (r matches Step::Ask(s, _) && s is History),
        request is Edit ==> (r matches Step::Ask(s, _) && s is Editing),
        request is Delete ==> (r matches Step::Ask(s, _) && s is Deleting),
        request is React ==> (r matches Step::Ask(s, _) && s is Reacting),
        request is Search ==> (r matches Step::Ask(s, _) && s is Searching),
        request is Notifications ==> (r matches Step::Ask(s, _) && s is Notifying),
        request matches Request::CreateServer(req) ==> !text::is_blank(req.name@) ==> (
        r matches Step::Ask(s, _) && s is CreateServer),
        request matches Request::CreateChannel(_, req) ==> !text::is_blank(req.name@) ==> (
        r matches Step::Ask(s, _) && s is CreateChannel),
        request matches Request::UpdateMe(req) ==> (req.display_name matches Some(n)
            ==> text::utf8_len(n@) <= 64) && (req.password matches Some(p) ==> p@.len() >= 4
            && vstd::utf8::encode_utf8(p@).len() <= 0xffff_ffff) ==> (r matches Step::Ask(s, _)
            && s is UpdateMe),
{
    if let Request::UpdateMe(req) = request {
        if req.display_name is None && req.password is Some && req.password->0@.len() >= 4 {
            let p = req.password->0;
            let hashed = choose|hashed: Result<String, String>|
                passwords::hashes(hashed, p@) && #[trigger] UpdateMe::stores_password(
                    user.id,
                    token,
                    hashed,
                    r,
                );
            assert(UpdateMe::stores_password(user.id, token, hashed, r));
        }
    }
}

// ---------------------------------------------------------------------------
// A new database
// ---------------------------------------------------------------------------

/// A database without servers is filled with one server and two channels of it, in this order;
/// one with servers is left as it is. A users' table without a mark for images gets one.
pub proof fn law_a_new_database_has_a_server(
    servers: i64,
    server: Uuid,
    general: Uuid,
    random: Uuid,
    stamp: Seq<char>,
    seeded: Seq<db::Statement>,
    columns: i64,
    mended: Seq<db::Statement>,
)
    requires
        db::seeds(servers, server, general, random, stamp, seeded),
        db::adds_avatar_column(columns, mended),
    ensures
        servers > 0 ==> seeded.len() == 0,
        servers <= 0 ==> {
            &&& seeded.len() == 3
            &&& seeded[0].sql@
                == "INSERT INTO servers (id, name, description, created_at) VALUES (?1,'general','Welcome to tuimessager — your self-hosted Concord-style chat',?2)"@
            &&& db::value_views(seeded[0].args@) == seq![id_text(server), ValueView::Text(stamp)]
            &&& seeded[1].sql@
                == "INSERT INTO channels (id, server_id, name, topic, kind, position) VALUES (?1,?2,?3,?4,'text',?5)"@
            &&& db::value_views(seeded[1].args@) == seq![
                id_text(general),
                id_text(server),
                ValueView::Text("general"@),
                ValueView::Text("General discussion"@),
                ValueView::Int(0),
            ]
            &&& seeded[2].sql@ == seeded[1].sql@
            &&& db::value_views(seeded[2].args@) == seq![
                id_text(random),
                id_text(server),
                ValueView::Text("random"@),
                ValueView::Text("Off-topic"@),
                ValueView::Int(1),
            ]
        },
        columns > 0 ==> mended.len() == 0,
        columns <= 0 ==> mended.len() == 1 && mended[0].sql@
            == "ALTER TABLE users ADD COLUMN avatar INTEGER NOT NULL DEFAULT 0"@
            && mended[0].args@.len() == 0,
{
    if columns <= 0 {
        assert(db::value_views(mended[0].args@).len() == 0);
    }
}

} // verus!

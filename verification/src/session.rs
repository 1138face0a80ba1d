//! What the client makes of what the server tells it, and what it asks the server for.

use crate::app;
use crate::app::{Answer, App, Focus, Work, WorkView};
use crate::client;
use crate::client::{Client, HttpRequest, Method, Payload};
use crate::codec;
use crate::id;
use crate::id::Uuid;
use crate::markdown;
use crate::protocol::{Channel, Message, Notification, ReactionCount, Server, WsEvent};
use crate::text;
use vstd::prelude::*;

verus! {

/// Nothing changed but what `new` itself has for the messages and the line at the bottom.
pub open spec fn same_but_messages(old: App, new: App) -> bool {
    new == (App { messages: new.messages, msg_idx: new.msg_idx, status: new.status, ..old })
}

/// The first message with an identifier stands at a place.
pub open spec fn is_first(messages: Seq<Message>, message: Uuid, k: int) -> bool {
    &&& 0 <= k < messages.len()
    &&& messages[k].id == message
    &&& forall|j: int| 0 <= j < k ==> (#[trigger] messages[j]).id != message
}

proof fn lemma_place(messages: Seq<Message>, message: Uuid, from: int)
    requires
        0 <= from,
    ensures
        match app::place_of(messages, message, from) {
            Some(k) => from <= k < messages.len() && messages[k].id == message && forall|j: int|
                from <= j < k ==> (#[trigger] messages[j]).id != message,
            None => forall|j: int|
                from <= j < messages.len() ==> (#[trigger] messages[j]).id != message,
        },
    decreases messages.len() - from,
{
    if from < messages.len() && messages[from].id != message {
        lemma_place(messages, message, from + 1);
    }
}

/// Some messages are others with one put in the place of the first of an identifier. Where
/// there is none, they are the same.
pub open spec fn is_replaced(
    old: Seq<Message>,
    message: Uuid,
    m: Message,
    new: Seq<Message>,
) -> bool {
    &&& new.len() == old.len()
    &&& forall|i: int|
        0 <= i < old.len() ==> #[trigger] new[i] == (if is_first(old, message, i) {
            m
        } else {
            old[i]
        })
}

proof fn lemma_replaced(old: Seq<Message>, message: Uuid, m: Message)
    ensures
        is_replaced(old, message, m, app::with_message(old, message, m)),
{
    lemma_place(old, message, 0);
    let new = app::with_message(old, message, m);
    assert forall|i: int| 0 <= i < old.len() implies #[trigger] new[i] == (if is_first(
        old,
        message,
        i,
    ) {
        m
    } else {
        old[i]
    }) by {
        match app::place_of(old, message, 0) {
            Some(k) => {
                if i == k {
                    assert(is_first(old, message, i));
                } else if is_first(old, message, i) {
                    assert(old[k].id == message);
                    assert(old[i].id == message);
                }
            },
            None => {
                assert(old[i].id != message);
            },
        }
    }
}

// ---------------------------------------------------------------------------
// Answers
// ---------------------------------------------------------------------------

/// The servers that come back are the ones that are shown. The one that was selected stays
/// selected by its place, or the last one is where there are fewer now.
pub proof fn law_servers_are_taken(app: App, servers: Vec<Server>, new: App, more: Seq<WorkView>)
    requires
        app.wf(),
        servers@.len() <= usize::MAX,
        app.takes(Work::FetchServers, Answer::Servers(servers), new, more),
    ensures
        new == (App {
            servers: new.servers,
            server_idx: new.server_idx,
            status: new.status,
            ..app
        }),
        new.servers@ == servers@,
        new.status@.len() == 0,
        app.server_idx < servers@.len() ==> new.server_idx == app.server_idx,
        app.server_idx >= servers@.len() && servers@.len() > 0 ==> new.server_idx + 1
            == servers@.len(),
        servers@.len() == 0 ==> new.server_idx == 0,
        more.len() == 0,
{
}

/// The channels that come back are the ones that are shown, with the first one selected.
/// Then the members of the selected server and the history of that first channel are asked
/// for.
pub proof fn law_channels_are_taken(
    app: App,
    server: Uuid,
    channels: Vec<Channel>,
    new: App,
    more: Seq<WorkView>,
)
    requires
        app.takes(Work::FetchChannels(server), Answer::Channels(channels), new, more),
    ensures
        new == (App { channels: new.channels, channel_idx: 0, ..app }),
        new.channels@ == channels@,
        app.server_idx < app.servers@.len() && channels@.len() > 0 ==> more == seq![
            WorkView::FetchMembers(app.servers@[app.server_idx as int].id),
            WorkView::FetchHistory { channel: channels@[0].id, before: None },
        ],
        app.server_idx < app.servers@.len() && channels@.len() == 0 ==> more == seq![
            WorkView::FetchMembers(app.servers@[app.server_idx as int].id),
        ],
{
    if app.server_idx < app.servers@.len() {
        if channels@.len() > 0 {
            assert(more =~= seq![
                WorkView::FetchMembers(app.servers@[app.server_idx as int].id),
                WorkView::FetchHistory { channel: channels@[0].id, before: None },
            ]);
        } else {
            assert(more =~= seq![WorkView::FetchMembers(app.servers@[app.server_idx as int].id)]);
        }
    }
}

/// A page of the history is what is shown, with its last message selected. Where older
/// messages were asked for, they come before those that are there, and what is selected stays
/// at its place.
pub proof fn law_history_is_taken(
    app: App,
    channel: Uuid,
    before: Option<Uuid>,
    page: crate::protocol::MessagesPage,
    new: App,
    more: Seq<WorkView>,
)
    requires
        page.items@.len() <= usize::MAX,
        app.takes(Work::FetchHistory { channel, before }, Answer::Page(page), new, more),
    ensures
        new == (App {
            messages: new.messages,
            msg_idx: new.msg_idx,
            has_more: page.has_more,
            status: new.status,
            ..app
        }),
        new.status@.len() == 0,
        more.len() == 0,
        before is None ==> new.messages@ == page.items@ && (page.items@.len() > 0
            ==> new.msg_idx + 1 == page.items@.len()) && (page.items@.len() == 0 ==> new.msg_idx
            == 0),
        before is Some ==> {
            &&& new.messages@.len() == page.items@.len() + app.messages@.len()
            &&& forall|i: int|
                0 <= i < page.items@.len() ==> #[trigger] new.messages@[i] == page.items@[i]
            &&& forall|i: int|
                0 <= i < app.messages@.len() ==> new.messages@[page.items@.len() + i]
                    == #[trigger] app.messages@[i]
            &&& new.msg_idx == app.msg_idx
        },
{
}

proof fn lemma_first_unread(ns: Seq<Notification>, from: int)
    requires
        0 <= from,
    ensures
        match app::first_unread(ns, from) {
            Some(k) => from <= k < ns.len() && !ns[k].read && forall|j: int|
                from <= j < k ==> (#[trigger] ns[j]).read,
            None => forall|j: int| from <= j < ns.len() ==> (#[trigger] ns[j]).read,
        },
    decreases ns.len() - from,
{
    if from < ns.len() && ns[from].read {
        lemma_first_unread(ns, from + 1);
    }
}

/// The notifications that come back are the ones in the inbox. The first one that was not
/// read is shown on the desktop, where that is wanted: by whom it is, and up to two hundred
/// characters of it.
pub proof fn law_notifications_are_taken(
    app: App,
    ns: Vec<Notification>,
    k: int,
    new: App,
    more: Seq<WorkView>,
)
    requires
        app.takes(Work::FetchNotifications, Answer::Notifications(ns), new, more),
        0 <= k <= ns@.len(),
        k < ns@.len() ==> !ns@[k].read,
        forall|j: int| 0 <= j < k ==> (#[trigger] ns@[j]).read,
    ensures
        new == (App { notifications: new.notifications, ..app }),
        new.notifications@ == ns@,
        !app.options.notifications.desktop_notifications || k == ns@.len() ==> more.len() == 0,
        app.options.notifications.desktop_notifications && k < ns@.len() ==> more == seq![
            WorkView::Toast {
                summary: "tuimessager: "@ + ns@[k].message.author.shown_name(),
                body: if ns@[k].message.content@.len() <= 200 {
                    ns@[k].message.content@
                } else {
                    ns@[k].message.content@.take(200)
                },
            },
        ],
{
    lemma_first_unread(ns@, 0);
}

/// A message that was sent is the last one, and selected; one that was edited or reacted to
/// takes the place of what it was; one that was deleted is gone, and all others stay in their
/// order. What is found by a search is what is shown, with the first one selected and the
/// keys on it.
pub proof fn law_messages_are_taken(
    app: App,
    send: Work,
    edit: Work,
    react: Work,
    search: Work,
    message: Uuid,
    m: Message,
    found: Vec<Message>,
    sent: App,
    edited: App,
    reacted: App,
    deleted: App,
    searched: App,
)
    requires
        send is Send,
        edit matches Work::Edit { id, .. } && id == message,
        react matches Work::React { id, .. } && id == message,
        search is Search,
        app.takes(send, Answer::Message(m), sent, Seq::empty()),
        app.takes(edit, Answer::Message(m), edited, Seq::empty()),
        app.takes(react, Answer::Message(m), reacted, Seq::empty()),
        app.takes(Work::Delete(message), Answer::Done, deleted, Seq::empty()),
        app.takes(search, Answer::Messages(found), searched, Seq::empty()),
    ensures
        same_but_messages(app, sent),
        sent.messages@ == app.messages@.push(m),
        sent.msg_idx == app.messages@.len(),
        sent.status@.len() == 0,
        same_but_messages(app, edited),
        is_replaced(app.messages@, message, m, edited.messages@),
        edited.msg_idx == app.msg_idx,
        edited.status@.len() == 0,
        same_but_messages(app, reacted),
        is_replaced(app.messages@, message, m, reacted.messages@),
        reacted.msg_idx == app.msg_idx,
        reacted.status == app.status,
        same_but_messages(app, deleted),
        deleted.messages@ == app.messages@.filter(|m: Message| m.id != message),
        app.msg_idx < deleted.messages@.len() ==> deleted.msg_idx == app.msg_idx,
        app.msg_idx >= deleted.messages@.len() && deleted.messages@.len() > 0
            && deleted.messages@.len() <= usize::MAX ==> deleted.msg_idx + 1
            == deleted.messages@.len(),
        deleted.messages@.len() == 0 ==> deleted.msg_idx == 0,
        deleted.status == app.status,
        searched == (App {
            messages: searched.messages,
            msg_idx: 0,
            focus: Focus::Messages,
            status: searched.status,
            ..app
        }),
        searched.messages@ == found@,
        searched.status@ == "search: "@ + text::decimal_text(found@.len()) + " hits"@,
{
    lemma_replaced(app.messages@, message, m);
}

/// A request that failed changes nothing but the line at the bottom, which says what failed
/// and why. Only the members and the notifications fail in silence. A logout that failed ends
/// the session all the same.
pub proof fn law_failures_are_told(app: App, work: Work, why: String, new: App, more: Seq<WorkView>)
    requires
        work.is_remote(),
        app.takes(work, Answer::Failed(why), new, more),
    ensures
        !(work is Logout) ==> new == (App { status: new.status, ..app }) && more.len() == 0,
        work is FetchServers ==> new.status@ == "servers: "@ + why@,
        work is FetchChannels ==> new.status@ == "channels: "@ + why@,
        work is FetchHistory ==> new.status@ == "history: "@ + why@,
        work is Send ==> new.status@ == "send: "@ + why@,
        work is Edit ==> new.status@ == "edit: "@ + why@,
        work is Delete ==> new.status@ == "delete: "@ + why@,
        work is React ==> new.status@ == "react: "@ + why@,
        work is Search ==> new.status@ == "search: "@ + why@,
        work is FetchMembers || work is FetchNotifications ==> new == app,
        work is Logout ==> new.status@ == "logout: "@ + why@ + " (clearing local token anyway)"@
            && more == seq![WorkView::ClearToken, WorkView::Quit],
{
}

/// A logout removes the stored token and ends the program, whatever the server said, and says
/// so once the terminal is back to normal.
pub proof fn law_a_logout_ends_the_program(
    app: App,
    answer: Answer,
    new: App,
    more: Seq<WorkView>,
)
    requires
        app.takes(Work::Logout, answer, new, more),
    ensures
        new == (App { status: new.status, exit_message: new.exit_message, ..app }),
        new.exit_message is Some && new.exit_message->0@ == "Logged out of tuimessager."@,
        more == seq![WorkView::ClearToken, WorkView::Quit],
{
}

// ---------------------------------------------------------------------------
// The composer
// ---------------------------------------------------------------------------

/// What is written goes out without the white space around it: as the new content of the
/// message that is being edited, or else as a new message in the selected channel, an answer
/// to the message that was chosen. The composer is empty and closed then.
pub proof fn law_what_is_written_goes_out(
    app: App,
    before: Seq<char>,
    content: Seq<char>,
    after: Seq<char>,
    new: App,
    work: Seq<WorkView>,
)
    requires
        app.submits(new, work),
        app.composer@ == before + content + after,
        text::is_blank(before),
        text::is_blank(after),
        content.len() > 0,
        !text::is_white_space(content[0]),
        !text::is_white_space(content.last()),
        app.channel_idx < app.channels@.len(),
    ensures
        work == seq![
            match app.editing {
                Some(message) => WorkView::Edit { id: message, content },
                None => WorkView::Send {
                    channel: app.channels@[app.channel_idx as int].id,
                    content,
                    reply_to: app.reply_to,
                },
            },
        ],
        new == (App {
            composer: new.composer,
            composer_cursor: 0,
            reply_to: None,
            editing: None,
            composer_open: false,
            ..app
        }),
        new.composer@.len() == 0,
{
    text::law_trimming(before, content, after);
    assert(!text::is_blank(app.composer@)) by {
        assert(app.composer@[before.len() as int] == content[0]);
    }
}

/// White space alone is not sent: the composer closes.
pub proof fn law_nothing_is_not_sent(app: App, new: App, work: Seq<WorkView>)
    requires
        app.submits(new, work),
        text::is_blank(app.composer@),
    ensures
        work.len() == 0,
        new == (App { composer_open: false, ..app }),
{
}

// ---------------------------------------------------------------------------
// Live events
// ---------------------------------------------------------------------------

/// A new message of the selected channel is the last one, and selected where the keys are on
/// the messages. One of another channel is only told of.
pub proof fn law_a_new_message_appears(app: App, m: Message, new: App)
    requires
        app.applies(WsEvent::MessageCreated { message: m }, new),
    ensures
        ({
            let here = app.channel_idx < app.channels@.len()
                && app.channels@[app.channel_idx as int].id == m.channel_id;
            &&& here ==> {
                &&& new == (App { messages: new.messages, msg_idx: new.msg_idx, ..app })
                &&& new.messages@ == app.messages@.push(m)
                &&& app.focus == Focus::Messages ==> new.msg_idx == app.messages@.len()
                &&& app.focus != Focus::Messages ==> new.msg_idx == app.msg_idx
            }
            &&& !here ==> {
                &&& new == (App { status: new.status, ..app })
                &&& new.status@ == "new message in "@ + id::hyphenated_text(m.channel_id.0)
            }
        }),
{
}

/// A message that someone edited takes the place of what it was, one that someone deleted is
/// gone, and new reactions take the place of the old ones on their message and change nothing
/// else.
pub proof fn law_changed_messages_are_shown_changed(
    app: App,
    m: Message,
    channel: Uuid,
    message: Uuid,
    reactions: Vec<ReactionCount>,
    edited: App,
    deleted: App,
    reacted: App,
)
    requires
        app.applies(WsEvent::MessageEdited { message: m }, edited),
        app.applies(WsEvent::MessageDeleted { channel_id: channel, id: message }, deleted),
        app.applies(
            WsEvent::ReactionUpdated { channel_id: channel, message_id: message, reactions },
            reacted,
        ),
    ensures
        edited == (App { messages: edited.messages, ..app }),
        is_replaced(app.messages@, m.id, m, edited.messages@),
        deleted == (App { messages: deleted.messages, msg_idx: deleted.msg_idx, ..app }),
        deleted.messages@ == app.messages@.filter(|m: Message| m.id != message),
        app.msg_idx < deleted.messages@.len() ==> deleted.msg_idx == app.msg_idx,
        reacted == (App { messages: reacted.messages, ..app }),
        reacted.messages@.len() == app.messages@.len(),
        forall|i: int|
            0 <= i < app.messages@.len() ==> #[trigger] reacted.messages@[i] == (if is_first(
                app.messages@,
                message,
                i,
            ) {
                Message { reactions, ..app.messages@[i] }
            } else {
                app.messages@[i]
            }),
{
    lemma_replaced(app.messages@, m.id, m);
    let old = app.messages@;
    lemma_place(old, message, 0);
    assert forall|i: int| 0 <= i < old.len() implies #[trigger] reacted.messages@[i] == (
    if is_first(old, message, i) {
        Message { reactions, ..old[i] }
    } else {
        old[i]
    }) by {
        match app::place_of(old, message, 0) {
            Some(k) => {
                if i == k {
                    assert(is_first(old, message, i));
                } else if is_first(old, message, i) {
                    assert(old[k].id == message);
                    assert(old[i].id == message);
                }
            },
            None => {
                assert(old[i].id != message);
            },
        }
    }
}

/// A new notification is the first one in the inbox, and a new channel is told of. Nothing
/// else that happens changes anything.
pub proof fn law_other_news_are_taken(
    app: App,
    notification: Notification,
    channel: Channel,
    other: WsEvent,
    notified: App,
    told: App,
    new: App,
)
    requires
        app.applies(WsEvent::NotificationCreated { notification }, notified),
        app.applies(WsEvent::ChannelCreated { channel }, told),
        other is Hello || other is Typing || other is PresenceUpdated || other is Error,
        app.applies(other, new),
    ensures
        notified == (App { notifications: notified.notifications, ..app }),
        notified.notifications@.len() == app.notifications@.len() + 1,
        notified.notifications@[0] == notification,
        notified.notifications@.skip(1) == app.notifications@,
        told == (App { status: told.status, ..app }),
        told.status@ == "new channel: #"@ + channel.name@,
        new == app,
{
    assert(notified.notifications@.skip(1) =~= app.notifications@);
}

// ---------------------------------------------------------------------------
// Requests
// ---------------------------------------------------------------------------

/// A request of a session goes to a path below the server's address, with its token.
pub open spec fn is_sent(r: HttpRequest, c: Client, method: Method, path: Seq<char>) -> bool {
    r.method == method && r.url@ == c.base@ + path && r.token == Some(c.token)
}

/// Which request stands for what the client wants of the server.
pub proof fn law_work_becomes_a_request(c: Client, work: Work, r: HttpRequest)
    requires
        app::is_request(c, work, r),
    ensures
        work is FetchServers ==> is_sent(r, c, Method::Get, "/api/v1/servers"@) && r.payload
            is Nothing,
        work matches Work::FetchChannels(s) ==> is_sent(
            r,
            c,
            Method::Get,
            "/api/v1/servers/"@ + id::hyphenated_text(s.0) + "/channels"@,
        ) && r.payload is Nothing,
        work matches Work::FetchMembers(s) ==> is_sent(
            r,
            c,
            Method::Get,
            "/api/v1/servers/"@ + id::hyphenated_text(s.0) + "/members"@,
        ) && r.payload is Nothing,
        work matches Work::FetchHistory { channel, before } ==> is_sent(
            r,
            c,
            Method::Get,
            "/api/v1/channels/"@ + id::hyphenated_text(channel.0) + "/messages?limit="@ + seq![
                '5',
                '0',
            ] + (match before {
                Some(b) => "&before="@ + id::hyphenated_text(b.0),
                None => Seq::empty(),
            }),
        ) && r.payload is Nothing,
        work is FetchNotifications ==> is_sent(r, c, Method::Get, "/api/v1/notifications"@)
            && r.payload is Nothing,
        work matches Work::Send { channel, content, reply_to } ==> is_sent(
            r,
            c,
            Method::Post,
            "/api/v1/channels/"@ + id::hyphenated_text(channel.0) + "/messages"@,
        ) && (r.payload matches Payload::Send(req) && req.content@ == content@ && req.reply_to
            == reply_to && req.nonce is Some),
        work matches Work::Edit { id, content } ==> is_sent(
            r,
            c,
            Method::Patch,
            "/api/v1/messages/"@ + id::hyphenated_text(id.0),
        ) && (r.payload matches Payload::Edit(req) && req.content@ == content@),
        work matches Work::Delete(id) ==> is_sent(
            r,
            c,
            Method::Delete,
            "/api/v1/messages/"@ + id::hyphenated_text(id.0),
        ) && r.payload is Nothing,
        work matches Work::React { id, emoji } ==> is_sent(
            r,
            c,
            Method::Post,
            "/api/v1/messages/"@ + id::hyphenated_text(id.0) + "/reactions/"@ + emoji@,
        ) && r.payload is Nothing,
        work matches Work::Search { query, channel } ==> is_sent(
            r,
            c,
            Method::Get,
            "/api/v1/search?query="@ + codec::form_text(vstd::utf8::encode_utf8(query@)) + (
            match channel {
                Some(x) => "&channel_id="@ + id::hyphenated_text(x.0),
                None => Seq::empty(),
            }),
        ) && r.payload is Nothing,
        work is Logout ==> is_sent(r, c, Method::Post, "/api/v1/logout"@) && r.payload is Nothing,
        work.is_remote(),
{
    reveal_strlit("");
    reveal_with_fuel(text::decimal_text, 3);
    assert(text::decimal_text(50) =~= seq!['5', '0']);
    if let Work::Edit { id, content } = work {
        assert("/api/v1/messages/"@ + id::hyphenated_text(id.0) + ""@ =~= "/api/v1/messages/"@
            + id::hyphenated_text(id.0));
    }
    if let Work::Delete(id) = work {
        assert("/api/v1/messages/"@ + id::hyphenated_text(id.0) + ""@ =~= "/api/v1/messages/"@
            + id::hyphenated_text(id.0));
    }
}

// ---------------------------------------------------------------------------
// The channel switcher
// ---------------------------------------------------------------------------

/// What is looked for in the switcher is what was typed, without the white space around it.
/// Behind a star it is also compared with the name of the server.
pub proof fn law_what_the_switcher_looks_for(
    before: Seq<char>,
    query: Seq<char>,
    after: Seq<char>,
    server: Server,
    channel: Channel,
)
    requires
        text::is_blank(before),
        text::is_blank(after),
        query.len() > 0,
        query[0] != '*',
        !text::is_white_space(query[0]),
        !text::is_white_space(query.last()),
    ensures
        app::switcher_query(before + query + after) == query,
        !app::is_starred(before + query + after),
        app::switcher_query(before + (seq!['*'] + query) + after) == query,
        app::is_starred(before + (seq!['*'] + query) + after),
        app::switcher_label(false, Some(server), channel) == seq!['#'] + channel.name@,
        app::switcher_label(true, Some(server), channel) == server.name@ + seq![' ', '#']
            + channel.name@,
        app::switcher_label(true, None, channel) == seq![' ', '#'] + channel.name@,
{
    reveal_strlit("#");
    reveal_strlit(" #");
    reveal_strlit("");
    assert("#"@ =~= seq!['#']);
    assert(" #"@ =~= seq![' ', '#']);
    assert(app::switcher_label(true, None, channel) =~= seq![' ', '#'] + channel.name@);
    text::law_trimming(before, query, after);
    let nothing = Seq::<char>::empty();
    assert(nothing + query + nothing =~= query);
    text::law_trimming(nothing, query, nothing);
    assert(text::without_leading(query, '*') == query);
    let starred = seq!['*'] + query;
    assert(starred.last() == query.last());
    text::law_trimming(before, starred, after);
    assert(starred.drop_first() =~= query);
    reveal_with_fuel(text::without_leading, 2);
    assert(text::without_leading(starred, '*') == query);
}

/// Without a query every channel is offered alike; with one, exactly those that hold its
/// characters in their order, whatever their case.
pub proof fn law_the_switcher_matches_channels(query: Seq<char>, target: Seq<char>)
    ensures
        query.len() == 0 ==> app::score_of(query, target) == Some(0i64),
        query.len() > 0 ==> (app::score_of(query, target) is Some <==> markdown::is_subsequence(
            text::lowercased(query),
            text::lowercased(target),
        )),
{
    markdown::law_fuzzy_matches_subsequences(text::lowercased(query), text::lowercased(target));
}


/// What goes to the server and what does not.
pub proof fn law_what_goes_to_the_server(work: Work)
    ensures
        work.is_remote() <==> (work is FetchServers || work is FetchChannels || work
            is FetchMembers || work is FetchHistory || work is FetchNotifications || work is Send
            || work is Edit || work is Delete || work is React || work is Search || work
            is Logout),
{
}

/// An answer of another kind than what was asked for changes nothing.
pub proof fn law_what_does_not_fit_is_ignored(
    app: App,
    work: Work,
    answer: Answer,
    new: App,
    more: Seq<WorkView>,
)
    requires
        app.takes(work, answer, new, more),
        !(answer is Failed),
        !(work is Logout),
        !(work is FetchServers && answer is Servers),
        !(work is FetchChannels && answer is Channels),
        !(work is FetchMembers && answer is Members),
        !(work is FetchHistory && answer is Page),
        !(work is FetchNotifications && answer is Notifications),
        !((work is Send || work is Edit || work is React) && answer is Message),
        !(work is Delete && answer is Done),
        !(work is Search && answer is Messages),
    ensures
        new == app,
        more.len() == 0,
{
}

/// The members that come back are the ones that are shown.
pub proof fn law_members_are_taken(
    app: App,
    server: Uuid,
    members: Vec<crate::protocol::Member>,
    new: App,
    more: Seq<WorkView>,
)
    requires
        app.takes(Work::FetchMembers(server), Answer::Members(members), new, more),
    ensures
        new == (App { members: new.members, ..app }),
        new.members@ == members@,
        more.len() == 0,
{
}

/// Which requests stand for what is done with the own account: who one is, a new name or
/// password, a new image of at most a mebibyte, and none.
pub proof fn law_requests_on_the_own_account(
    c: Client,
    display_name: Option<String>,
    password: Option<String>,
    bytes: Seq<u8>,
    who: HttpRequest,
    change: HttpRequest,
    upload: Result<HttpRequest, String>,
    removal: HttpRequest,
)
    requires
        client::asks_who(c, who),
        client::changes_profile(c, display_name, password, change),
        client::uploads_image(c, bytes, upload),
        client::removes_image(c, removal),
    ensures
        is_sent(who, c, Method::Get, "/api/v1/me"@) && who.payload is Nothing,
        is_sent(change, c, Method::Patch, "/api/v1/me"@),
        change.payload matches Payload::UpdateMe(req) && req.display_name == display_name
            && req.password == password,
        upload is Ok <==> 1 <= bytes.len() <= 1024 * 1024,
        upload matches Ok(r) ==> is_sent(r, c, Method::Post, "/api/v1/me/avatar"@) && (
        r.payload matches Payload::SetAvatar(a) && a.data_base64@ == codec::base64_text(bytes)),
        upload matches Err(e) ==> e@ == "image must be 1 byte–1 MiB"@,
        is_sent(removal, c, Method::Delete, "/api/v1/me/avatar"@) && removal.payload is Nothing,
{
}

/// A reply is an error unless its status begins with a two. The error names the status and
/// says what the server said.
pub proof fn law_which_replies_are_errors(status: u16, name: Seq<char>, body: Seq<char>)
    ensures
        client::checked(status, name, body) is Ok <==> 200 <= status <= 299,
        client::checked(status, name, body) matches Err(e) ==> e == name + seq![':', ' '] + body,
{
    reveal_strlit(": ");
    assert(": "@ =~= seq![':', ' ']);
}

} // verus!

//! Messages on the server: history, sending, editing, reactions, search, notifications.

use crate::db;
use crate::exchange::{
    fail, refuse, reply, stumble, Action, Body, Draw, Event, Finish, Reply, Stage, Step,
    BAD_REQUEST, CREATED, FORBIDDEN, INTERNAL_SERVER_ERROR, NOT_FOUND, NO_CONTENT, OK,
};
use crate::id;
use crate::id::Uuid;
use crate::protocol;
use crate::protocol::{
    EditMessageRequest, Message, MessagesPage, Notification, NotificationKind, SearchRequest,
    SendMessageRequest, WsEvent,
};
use crate::text;
use crate::time::Timestamp;
use vstd::prelude::*;

verus! {

// ---------------------------------------------------------------------------
// History
// ---------------------------------------------------------------------------

/// Which part of a channel's history is asked for.
#[derive(Debug)]
pub struct HistoryQuery {
    pub limit: Option<i64>,
    /// Only messages older than this one.
    pub before: Option<String>,
}

/// How far the reading of a channel's history has come, for the user `me`.
#[derive(Debug)]
pub enum History {
    /// The messages' identifiers are awaited, the latest first,
    Listing { me: String, limit: usize },
    /// then one message after another is read, the one at `at` just now.
    Reading {
        me: String,
        ids: Vec<String>,
        at: usize,
        has_more: bool,
        items: Vec<Message>,
        hydration: db::Hydration,
    },
}

/// How many messages a page has at most: as many as are asked for, but at least 1 and at
/// most 100, and 50 where nothing is said.
pub open spec fn page_limit(limit: Option<i64>) -> int {
    match limit {
        Some(n) => if n < 1 {
            1
        } else if n > 100 {
            100
        } else {
            n as int
        },
        None => 50,
    }
}

fn limit_of(limit: Option<i64>) -> (r: usize)
    ensures
        r == page_limit(limit),
        1 <= r <= 100,
{
    match limit {
        Some(n) => if n < 1 {
            1
        } else if n > 100 {
            100
        } else {
            n as usize
        },
        None => 50,
    }
}

/// The first step of `channel_history`.
pub open spec fn begins_channel_history(me: Uuid, channel: Uuid, q: HistoryQuery, r: Step) -> bool {
    &&& match q.before {
        Some(before) => r.queries(
            "SELECT id FROM messages WHERE channel_id=?1 AND created_at < (SELECT created_at FROM messages WHERE id=?2) ORDER BY created_at DESC LIMIT ?3"@,
            seq![
                db::id_value(channel),
                db::text_value(before@),
                db::ValueView::Int((page_limit(q.limit) + 1) as i64),
            ],
        ),
        None => r.queries(
            "SELECT id FROM messages WHERE channel_id=?1 ORDER BY created_at DESC LIMIT ?2"@,
            seq![
                db::id_value(channel),
                db::ValueView::Int((page_limit(q.limit) + 1) as i64),
            ],
        ),
    }
    &&& r.state() matches Stage::History(History::Listing { me: m, limit }) && m@
        == id::hyphenated_text(me.0) && limit == page_limit(q.limit)
}

/// Starts to read a page of a channel's history. One message more than the page holds is
/// asked for.
pub fn channel_history(me: Uuid, channel: Uuid, q: HistoryQuery) -> (r: Step)
    ensures
        begins_channel_history(me, channel, q, r),
        r.wf(),
{
    let limit = limit_of(q.limit);
    let most = db::Value::Int((limit + 1) as i64);
    let s = match q.before {
        Some(before) => db::statement3(
            "SELECT id FROM messages WHERE channel_id=?1 AND created_at < (SELECT created_at FROM messages WHERE id=?2) ORDER BY created_at DESC LIMIT ?3",
            db::id_arg(channel),
            db::text_arg(before.as_str()),
            most,
        ),
        None => db::statement2(
            "SELECT id FROM messages WHERE channel_id=?1 ORDER BY created_at DESC LIMIT ?2",
            db::id_arg(channel),
            most,
        ),
    };
    Step::Ask(Stage::History(History::Listing { me: me.text(), limit }), Action::Query(s))
}

/// The first `n` of some identifiers.
pub open spec fn first_ids(ids: Seq<String>, n: int) -> Seq<String> {
    if n < ids.len() {
        ids.take(n)
    } else {
        ids
    }
}

impl History {
    /// No more messages than a page holds are read, and no more are found than were read.
    pub open spec fn wf(self) -> bool {
        match self {
            History::Listing { me, limit } => 1 <= limit <= 100,
            History::Reading { me, ids, at, has_more, items, hydration } => items@.len() <= at
                < ids@.len() <= 100,
        }
    }

    /// The message at `at` is read next. Where there are no more, what was found is the
    /// reply, the oldest first.
    pub open spec fn reads_on(
        r: Step,
        me: Seq<char>,
        ids: Seq<String>,
        at: int,
        has_more: bool,
        items: Seq<Message>,
    ) -> bool {
        if at < ids.len() {
            &&& r matches Step::Ask(state, Action::Query(s))
            &&& state matches Stage::History(
                History::Reading { me: m, ids: i, at: a, has_more: more, items: found, hydration },
            )
            &&& m@ == me
            &&& i@ == ids
            &&& a == at
            &&& more == has_more
            &&& found@ == items
            &&& db::starts_hydration(hydration, s, ids[at]@, me)
        } else {
            &&& r matches Step::Done(f)
            &&& f.event is None
            &&& f.reply.status == OK
            &&& f.reply.body matches Body::Page(page)
            &&& page.items@ == items.reverse()
            &&& page.has_more == has_more
        }
    }

    /// What the reading of a message leads to.
    pub open spec fn takes(
        r: Step,
        h: db::Hydrated,
        me: Seq<char>,
        ids: Seq<String>,
        at: int,
        has_more: bool,
        items: Seq<Message>,
    ) -> bool {
        match h {
            db::Hydrated::Ask(next, s) => {
                &&& r matches Step::Ask(state, Action::Query(st))
                &&& st == s
                &&& state matches Stage::History(
                    History::Reading {
                        me: m,
                        ids: i,
                        at: a,
                        has_more: more,
                        items: found,
                        hydration,
                    },
                )
                &&& m@ == me
                &&& i@ == ids
                &&& a == at
                &&& more == has_more
                &&& found@ == items
                &&& hydration == next
            },
            db::Hydrated::Message(message) => History::reads_on(
                r,
                me,
                ids,
                at + 1,
                has_more,
                items.push(message),
            ),
            db::Hydrated::Missing => History::reads_on(r, me, ids, at + 1, has_more, items),
            db::Hydrated::Broken(e) => r.refuses(INTERNAL_SERVER_ERROR, e@),
        }
    }

    pub open spec fn leads_to(self, event: Event, draw: Draw, r: Step) -> bool {
        match self {
            History::Listing { me, limit } => match event {
                Event::Rows(rows) => if db::all_text_rows(rows@) {
                    History::reads_on(
                        r,
                        me@,
                        first_ids(db::first_texts(rows@), limit as int),
                        0,
                        rows@.len() > limit,
                        Seq::empty(),
                    )
                } else {
                    r.stumbles()
                },
                _ => r.fails(event),
            },
            History::Reading { me, ids, at, has_more, items, hydration } => exists|h: db::Hydrated|
                #[trigger] hydration.leads_to(event, draw.now, h) && History::takes(
                    r,
                    h,
                    me@,
                    ids@,
                    at as int,
                    has_more,
                    items@,
                ),
        }
    }

    fn read_on(
        me: String,
        ids: Vec<String>,
        at: usize,
        has_more: bool,
        items: Vec<Message>,
    ) -> (r: Step)
        ensures
            History::reads_on(r, me@, ids@, at as int, has_more, items@),
    {
        if at < ids.len() {
            let (hydration, s) = db::hydrate_message(ids[at].as_str(), me.as_str());
            Step::Ask(
                Stage::History(History::Reading { me, ids, at, has_more, items, hydration }),
                Action::Query(s),
            )
        } else {
            reply(OK, Body::Page(MessagesPage { items: reversed(items), has_more }))
        }
    }

    /// Goes on with the reading of a channel's history.
    pub fn next(self, event: Event, draw: Draw) -> (r: Step)
        requires
            self.wf(),
        ensures
            self.leads_to(event, draw, r),
            r.wf(),
    {
        match self {
            History::Listing { me, limit } => match event {
                Event::Rows(rows) => match db::map_texts(&rows) {
                    Some(ids) => {
                        let mut ids = ids;
                        let has_more: bool = ids.len() > limit;
                        ids.truncate(limit);
                        assert(ids@ == first_ids(db::first_texts(rows@), limit as int));
                        History::read_on(me, ids, 0, has_more, Vec::new())
                    },
                    None => stumble(),
                },
                event => fail(event),
            },
            History::Reading { me, ids, at, has_more, items, hydration } => {
                match hydration.next(event, draw.now) {
                    db::Hydrated::Ask(next, s) => Step::Ask(
                        Stage::History(
                            History::Reading { me, ids, at, has_more, items, hydration: next },
                        ),
                        Action::Query(s),
                    ),
                    db::Hydrated::Message(message) => {
                        let mut items = items;
                        items.push(message);
                        History::read_on(me, ids, at + 1, has_more, items)
                    },
                    db::Hydrated::Missing => History::read_on(me, ids, at + 1, has_more, items),
                    db::Hydrated::Broken(e) => refuse(INTERNAL_SERVER_ERROR, e.as_str()),
                }
            },
        }
    }
}

/// The messages in the opposite order.
fn reversed(v: Vec<Message>) -> (r: Vec<Message>)
    ensures
        r@ == v@.reverse(),
{
    let mut left = v;
    let mut out: Vec<Message> = Vec::new();
    while left.len() > 0
        invariant
            out@ + left@.reverse() =~= v@.reverse(),
        decreases left@.len(),
    {
        let ghost before = left@;
        match left.pop() {
            Some(m) => {
                out.push(m);
                assert(before.reverse() =~= seq![m] + left@.reverse());
            },
            None => {},
        }
    }
    assert(left@.reverse() =~= Seq::empty());
    out
}

// ---------------------------------------------------------------------------
// Sending
// ---------------------------------------------------------------------------

/// How far the sending of a message by `me` has come.
#[derive(Debug)]
pub enum Sending {
    /// A message with the same idempotency key is being looked up,
    Looking { me: Uuid, channel: Uuid, req: SendMessageRequest },
    /// then it is read, where there is one;
    Recalling { me: Uuid, channel: Uuid, req: SendMessageRequest, hydration: db::Hydration },
    /// else the message is stored,
    Storing { me: Uuid, id: Uuid },
    /// then read back,
    Rereading { hydration: db::Hydration },
    /// then the users are listed,
    Naming { message: Message },
    /// then those who are mentioned are notified, from the one at `at` on.
    Telling { message: Message, users: Vec<Named>, at: usize },
}

/// A user's identifier and name.
#[derive(Debug)]
pub struct Named {
    pub id: String,
    pub name: String,
}

/// The message is stored.
pub open spec fn stores_message(
    r: Step,
    me: Uuid,
    channel: Uuid,
    req: SendMessageRequest,
    draw: Draw,
) -> bool {
    &&& r.executes(
        "INSERT INTO messages (id, channel_id, author_id, content, created_at, reply_to, nonce) VALUES (?1,?2,?3,?4,?5,?6,?7)"@,
        seq![
            db::id_value(draw.id),
            db::id_value(channel),
            db::id_value(me),
            db::text_value(req.content@),
            db::text_value(draw.stamp@),
            db::optional_id(req.reply_to),
            db::optional_id(req.nonce),
        ],
    )
    &&& r.state() == Stage::Sending(Sending::Storing { me, id: draw.id })
}

fn store_message(me: Uuid, channel: Uuid, req: SendMessageRequest, draw: Draw) -> (r: Step)
    ensures
        stores_message(r, me, channel, req, draw),
{
    let args: Vec<db::Value> = vec![
        db::id_arg(draw.id),
        db::id_arg(channel),
        db::id_arg(me),
        db::text_arg(req.content.as_str()),
        db::text_arg(draw.stamp.as_str()),
        db::optional_id_arg(req.reply_to),
        db::optional_id_arg(req.nonce),
    ];
    assert(db::value_views(args@) =~= seq![
        db::id_value(draw.id),
        db::id_value(channel),
        db::id_value(me),
        db::text_value(req.content@),
        db::text_value(draw.stamp@),
        db::optional_id(req.reply_to),
        db::optional_id(req.nonce),
    ]);
    let s = db::statement(
        "INSERT INTO messages (id, channel_id, author_id, content, created_at, reply_to, nonce) VALUES (?1,?2,?3,?4,?5,?6,?7)",
        args,
    );
    Step::Ask(Stage::Sending(Sending::Storing { me, id: draw.id }), Action::Execute(s))
}

/// The first step of `send_message`.
pub open spec fn begins_send_message(me: Uuid, channel: Uuid, req: SendMessageRequest, draw: Draw, r: Step) -> bool {
    if text::is_blank(req.content@) {
        r.refuses(BAD_REQUEST, "empty message"@)
    } else if text::utf8_len(req.content@) > 8000 {
        r.refuses(BAD_REQUEST, "message too long"@)
    } else {
        match req.nonce {
            Some(nonce) => {
                &&& r.queries(
                    "SELECT id FROM messages WHERE nonce=?1"@,
                    seq![db::id_value(nonce)],
                )
                &&& r.state() == Stage::Sending(Sending::Looking { me, channel, req })
            },
            None => stores_message(r, me, channel, req, draw),
        }
    }
}

/// Starts to send a message.
pub fn send_message(me: Uuid, channel: Uuid, req: SendMessageRequest, draw: Draw) -> (r: Step)
    ensures
        begins_send_message(me, channel, req, draw, r),
        r.wf(),
{
    if text::blank(req.content.as_str()) {
        return refuse(BAD_REQUEST, "empty message");
    }
    if req.content.as_str().len() > 8000 {
        return refuse(BAD_REQUEST, "message too long");
    }
    match req.nonce {
        Some(nonce) => {
            let s = db::statement1(
                "SELECT id FROM messages WHERE nonce=?1",
                db::id_arg(nonce),
            );
            Step::Ask(Stage::Sending(Sending::Looking { me, channel, req }), Action::Query(s))
        },
        None => store_message(me, channel, req, draw),
    }
}

/// A message mentions a user where it says their name behind an at sign, unless they wrote
/// it themselves.
pub open spec fn mentions(message: Message, user: Named) -> bool {
    user.id@ != id::hyphenated_text(message.author.id.0) && text::contains_text(
        message.content@,
        "@"@ + user.name@,
    )
}

/// The first user from `at` on whom a message mentions.
pub open spec fn next_mentioned(message: Message, users: Seq<Named>, at: int) -> Option<int>
    decreases users.len() - at,
{
    if at < 0 || at >= users.len() {
        None
    } else if mentions(message, users[at]) {
        Some(at)
    } else {
        next_mentioned(message, users, at + 1)
    }
}

/// The first user from `at` on whom a message mentions.
pub fn detect_mentions(message: &Message, users: &Vec<Named>, at: usize) -> (r: Option<usize>)
    ensures
        match r {
            Some(k) => next_mentioned(*message, users@, at as int) == Some(k as int) && k
                < users@.len() && mentions(*message, users@[k as int]),
            None => next_mentioned(*message, users@, at as int) is None,
        },
{
    let author = message.author.id.text();
    let mut i: usize = at;
    while i < users.len()
        invariant
            at <= i,
            author@ == id::hyphenated_text(message.author.id.0),
            next_mentioned(*message, users@, at as int) == next_mentioned(
                *message,
                users@,
                i as int,
            ),
        decreases users@.len() - i,
    {
        let user = &users[i];
        let sign = text::joined("@", user.name.as_str());
        let own: bool = text::same_text(user.id.as_str(), author.as_str());
        if !own && text::contains(message.content.as_str(), sign.as_str()) {
            return Some(i);
        }
        i += 1;
    }
    None
}

pub open spec fn all_named_rows(rows: Seq<Vec<db::Value>>) -> bool {
    forall|i: int|
        0 <= i < rows.len() ==> db::text_at((#[trigger] rows[i])@, 0) is Some && db::text_at(
            rows[i]@,
            1,
        ) is Some
}

/// The identifiers and names in some rows.
pub open spec fn named_of(rows: Seq<Vec<db::Value>>) -> Seq<Named> {
    rows.map_values(
        |row: Vec<db::Value>|
            Named { id: db::text_at(row@, 0)->0, name: db::text_at(row@, 1)->0 },
    )
}

fn map_named(rows: &Vec<Vec<db::Value>>) -> (r: Option<Vec<Named>>)
    ensures
        r is Some <==> all_named_rows(rows@),
        r matches Some(v) ==> v@ == named_of(rows@),
{
    let mut out: Vec<Named> = Vec::new();
    let mut i: usize = 0;
    let ghost want = named_of(rows@);
    while i < rows.len()
        invariant
            i <= rows@.len(),
            want == named_of(rows@),
            out@ == want.take(i as int),
            forall|k: int|
                0 <= k < i ==> db::text_at((#[trigger] rows@[k])@, 0) is Some && db::text_at(
                    rows@[k]@,
                    1,
                ) is Some,
        decreases rows@.len() - i,
    {
        match (db::text_cell(&rows[i], 0), db::text_cell(&rows[i], 1)) {
            (Some(user_id), Some(name)) => {
                out.push(Named { id: user_id, name });
                assert(want.take(i + 1) =~= want.take(i as int).push(want[i as int]));
            },
            _ => {
                assert(db::text_at(rows@[i as int]@, 0) is None || db::text_at(
                    rows@[i as int]@,
                    1,
                ) is None);
                return None;
            },
        }
        i += 1;
    }
    assert(want.take(i as int) =~= want);
    Some(out)
}

/// A new message is the reply, and everyone who listens is told of it.
pub open spec fn announces_new(r: Step, message: Message) -> bool {
    &&& r matches Step::Done(f)
    &&& f.reply == (Reply { status: CREATED, body: Body::Message(message) })
    &&& f.event matches Some(WsEvent::MessageCreated { message: told })
    &&& protocol::same_message(told, message)
}

impl Sending {
    /// The next one who is mentioned is notified. Where there are no more, the message is
    /// the reply, and everyone who listens is told of it.
    pub open spec fn tells_on(
        r: Step,
        message: Message,
        users: Seq<Named>,
        at: int,
        draw: Draw,
    ) -> bool {
        match next_mentioned(message, users, at) {
            Some(k) => {
                &&& r.executes(
                    "INSERT INTO notifications (id, user_id, channel_id, message_id, kind, created_at, read) VALUES (?1,?2,?3,?4,'mention',?5,0)"@,
                    seq![
                        db::id_value(draw.id),
                        db::text_value(users[k].id@),
                        db::id_value(message.channel_id),
                        db::id_value(message.id),
                        db::text_value(draw.stamp@),
                    ],
                )
                &&& r.state() matches Stage::Sending(
                    Sending::Telling { message: same, users: u, at: a },
                )
                &&& same == message
                &&& u@ == users
                &&& a == k + 1
            },
            None => announces_new(r, message),
        }
    }

    pub open spec fn recalls(
        r: Step,
        h: db::Hydrated,
        me: Uuid,
        channel: Uuid,
        req: SendMessageRequest,
        draw: Draw,
    ) -> bool {
        match h {
            db::Hydrated::Ask(next, s) => r == Step::Ask(
                Stage::Sending(Sending::Recalling { me, channel, req, hydration: next }),
                Action::Query(s),
            ),
            db::Hydrated::Message(message) => r.replies(OK, Body::Message(message)),
            db::Hydrated::Missing => stores_message(r, me, channel, req, draw),
            db::Hydrated::Broken(e) => r.refuses(INTERNAL_SERVER_ERROR, e@),
        }
    }

    pub open spec fn rereads(r: Step, h: db::Hydrated) -> bool {
        match h {
            db::Hydrated::Ask(next, s) => r == Step::Ask(
                Stage::Sending(Sending::Rereading { hydration: next }),
                Action::Query(s),
            ),
            db::Hydrated::Message(message) => {
                &&& r.queries("SELECT id, name FROM users"@, Seq::empty())
                &&& r.state() == Stage::Sending(Sending::Naming { message })
            },
            db::Hydrated::Missing => r.refuses(INTERNAL_SERVER_ERROR, "message missing"@),
            db::Hydrated::Broken(e) => r.refuses(INTERNAL_SERVER_ERROR, e@),
        }
    }

    pub open spec fn leads_to(self, event: Event, draw: Draw, r: Step) -> bool {
        match self {
            Sending::Looking { me, channel, req } => match event {
                Event::Rows(rows) => if rows@.len() == 0 {
                    stores_message(r, me, channel, req, draw)
                } else if db::text_at(rows@[0]@, 0) is Some {
                    &&& r matches Step::Ask(state, Action::Query(s))
                    &&& state matches Stage::Sending(
                        Sending::Recalling { me: m, channel: c, req: q, hydration },
                    )
                    &&& m == me
                    &&& c == channel
                    &&& q == req
                    &&& db::starts_hydration(
                        hydration,
                        s,
                        db::text_at(rows@[0]@, 0)->0@,
                        id::hyphenated_text(me.0),
                    )
                } else {
                    r.stumbles()
                },
                _ => r.fails(event),
            },
            Sending::Recalling { me, channel, req, hydration } => exists|h: db::Hydrated|
                #[trigger] hydration.leads_to(event, draw.now, h) && Sending::recalls(
                    r,
                    h,
                    me,
                    channel,
                    req,
                    draw,
                ),
            Sending::Storing { me, id } => match event {
                Event::Done => {
                    &&& r matches Step::Ask(state, Action::Query(s))
                    &&& state matches Stage::Sending(Sending::Rereading { hydration })
                    &&& db::starts_hydration(
                        hydration,
                        s,
                        id::hyphenated_text(id.0),
                        id::hyphenated_text(me.0),
                    )
                },
                _ => r.fails(event),
            },
            Sending::Rereading { hydration } => exists|h: db::Hydrated|
                #[trigger] hydration.leads_to(event, draw.now, h) && Sending::rereads(r, h),
            Sending::Naming { message } => match event {
                Event::Rows(rows) => if all_named_rows(rows@) {
                    Sending::tells_on(r, message, named_of(rows@), 0, draw)
                } else {
                    r.stumbles()
                },
                _ => r.fails(event),
            },
            // A notification that cannot be stored is passed over.
            Sending::Telling { message, users, at } => Sending::tells_on(
                r,
                message,
                users@,
                at as int,
                draw,
            ),
        }
    }

    fn tell_on(message: Message, users: Vec<Named>, at: usize, draw: Draw) -> (r: Step)
        ensures
            Sending::tells_on(r, message, users@, at as int, draw),
    {
        match detect_mentions(&message, &users, at) {
            Some(k) => {
                assert(k < users.len());
                let s = db::statement5(
                    "INSERT INTO notifications (id, user_id, channel_id, message_id, kind, created_at, read) VALUES (?1,?2,?3,?4,'mention',?5,0)",
                    db::id_arg(draw.id),
                    db::text_arg(users[k].id.as_str()),
                    db::id_arg(message.channel_id),
                    db::id_arg(message.id),
                    db::text_arg(draw.stamp.as_str()),
                );
                Step::Ask(
                    Stage::Sending(Sending::Telling { message, users, at: k + 1 }),
                    Action::Execute(s),
                )
            },
            None => {
                let told = message.clone();
                Step::Done(
                    Finish {
                        event: Some(WsEvent::MessageCreated { message: told }),
                        reply: Reply { status: CREATED, body: Body::Message(message) },
                    },
                )
            },
        }
    }

    /// Goes on with the sending of a message.
    pub fn next(self, event: Event, draw: Draw) -> (r: Step)
        ensures
            self.leads_to(event, draw, r),
            r.wf(),
    {
        match self {
            Sending::Looking { me, channel, req } => match event {
                Event::Rows(rows) => {
                    if rows.len() == 0 {
                        return store_message(me, channel, req, draw);
                    }
                    match db::text_cell(&rows[0], 0) {
                        Some(message_id) => {
                            let my_id = me.text();
                            let (hydration, s) = db::hydrate_message(
                                message_id.as_str(),
                                my_id.as_str(),
                            );
                            Step::Ask(
                                Stage::Sending(Sending::Recalling { me, channel, req, hydration }),
                                Action::Query(s),
                            )
                        },
                        None => stumble(),
                    }
                },
                event => fail(event),
            },
            Sending::Recalling { me, channel, req, hydration } => {
                match hydration.next(event, draw.now) {
                    db::Hydrated::Ask(next, s) => Step::Ask(
                        Stage::Sending(Sending::Recalling { me, channel, req, hydration: next }),
                        Action::Query(s),
                    ),
                    db::Hydrated::Message(message) => reply(OK, Body::Message(message)),
                    db::Hydrated::Missing => store_message(me, channel, req, draw),
                    db::Hydrated::Broken(e) => refuse(INTERNAL_SERVER_ERROR, e.as_str()),
                }
            },
            Sending::Storing { me, id } => match event {
                Event::Done => {
                    let message_id = id.text();
                    let my_id = me.text();
                    let (hydration, s) = db::hydrate_message(
                        message_id.as_str(),
                        my_id.as_str(),
                    );
                    Step::Ask(Stage::Sending(Sending::Rereading { hydration }), Action::Query(s))
                },
                event => fail(event),
            },
            Sending::Rereading { hydration } => {
                match hydration.next(event, draw.now) {
                    db::Hydrated::Ask(next, s) => Step::Ask(
                        Stage::Sending(Sending::Rereading { hydration: next }),
                        Action::Query(s),
                    ),
                    db::Hydrated::Message(message) => {
                        let s = db::statement0("SELECT id, name FROM users");
                        Step::Ask(Stage::Sending(Sending::Naming { message }), Action::Query(s))
                    },
                    db::Hydrated::Missing => refuse(INTERNAL_SERVER_ERROR, "message missing"),
                    db::Hydrated::Broken(e) => refuse(INTERNAL_SERVER_ERROR, e.as_str()),
                }
            },
            Sending::Naming { message } => match event {
                Event::Rows(rows) => match map_named(&rows) {
                    Some(users) => Sending::tell_on(message, users, 0, draw),
                    None => stumble(),
                },
                event => fail(event),
            },
            Sending::Telling { message, users, at } => Sending::tell_on(message, users, at, draw),
        }
    }
}

// ---------------------------------------------------------------------------
// Editing and deleting
// ---------------------------------------------------------------------------

/// How far the editing of a message by `me` has come.
#[derive(Debug)]
pub enum Editing {
    /// The author is being looked up,
    Checking { me: Uuid, id: Uuid, content: String },
    /// then the new content is stored,
    Storing { me: Uuid, id: Uuid },
    /// then the message is read back.
    Rereading { hydration: db::Hydration },
}

/// The first step of `edit_message`.
pub open spec fn begins_edit_message(me: Uuid, message: Uuid, req: EditMessageRequest, r: Step) -> bool {
    &&& r.queries(
        "SELECT author_id FROM messages WHERE id=?1"@,
        seq![db::id_value(message)],
    )
    &&& r.state() == Stage::Editing(
        Editing::Checking { me, id: message, content: req.content },
    )
}

/// Starts to edit a message.
pub fn edit_message(me: Uuid, message: Uuid, req: EditMessageRequest) -> (r: Step)
    ensures
        begins_edit_message(me, message, req, r),
        r.wf(),
{
    let s = db::statement1(
        "SELECT author_id FROM messages WHERE id=?1",
        db::id_arg(message),
    );
    Step::Ask(
        Stage::Editing(Editing::Checking { me, id: message, content: req.content }),
        Action::Query(s),
    )
}

/// An edited message is the reply, and everyone who listens is told of it.
pub open spec fn announces_edit(r: Step, message: Message) -> bool {
    &&& r matches Step::Done(f)
    &&& f.reply == (Reply { status: OK, body: Body::Message(message) })
    &&& f.event matches Some(WsEvent::MessageEdited { message: told })
    &&& protocol::same_message(told, message)
}

impl Editing {
    pub open spec fn rereads(r: Step, h: db::Hydrated) -> bool {
        match h {
            db::Hydrated::Ask(next, s) => r == Step::Ask(
                Stage::Editing(Editing::Rereading { hydration: next }),
                Action::Query(s),
            ),
            db::Hydrated::Message(message) => announces_edit(r, message),
            db::Hydrated::Missing => r.refuses(INTERNAL_SERVER_ERROR, "message missing"@),
            db::Hydrated::Broken(e) => r.refuses(INTERNAL_SERVER_ERROR, e@),
        }
    }

    pub open spec fn leads_to(self, event: Event, draw: Draw, r: Step) -> bool {
        match self {
            Editing::Checking { me, id, content } => match event {
                Event::Rows(rows) => if rows@.len() == 0 {
                    r.refuses(NOT_FOUND, "not found"@)
                } else if db::text_at(rows@[0]@, 0) is None {
                    r.stumbles()
                } else if db::text_at(rows@[0]@, 0)->0@ != id::hyphenated_text(me.0) {
                    r.refuses(FORBIDDEN, "not your message"@)
                } else {
                    &&& r.executes(
                        "UPDATE messages SET content=?1, edited_at=?2 WHERE id=?3"@,
                        seq![
                            db::text_value(content@),
                            db::text_value(draw.stamp@),
                            db::id_value(id),
                        ],
                    )
                    &&& r.state() == Stage::Editing(Editing::Storing { me, id })
                },
                _ => r.fails(event),
            },
            Editing::Storing { me, id } => match event {
                Event::Done => {
                    &&& r matches Step::Ask(state, Action::Query(s))
                    &&& state matches Stage::Editing(Editing::Rereading { hydration })
                    &&& db::starts_hydration(
                        hydration,
                        s,
                        id::hyphenated_text(id.0),
                        id::hyphenated_text(me.0),
                    )
                },
                _ => r.fails(event),
            },
            Editing::Rereading { hydration } => exists|h: db::Hydrated|
                #[trigger] hydration.leads_to(event, draw.now, h) && Editing::rereads(r, h),
        }
    }

    /// Goes on with the editing of a message.
    pub fn next(self, event: Event, draw: Draw) -> (r: Step)
        ensures
            self.leads_to(event, draw, r),
            r.wf(),
    {
        match self {
            Editing::Checking { me, id, content } => match event {
                Event::Rows(rows) => {
                    if rows.len() == 0 {
                        return refuse(NOT_FOUND, "not found");
                    }
                    let author = match db::text_cell(&rows[0], 0) {
                        Some(author) => author,
                        None => {
                            return stumble();
                        },
                    };
                    let my_id = me.text();
                    if !text::same_text(author.as_str(), my_id.as_str()) {
                        return refuse(FORBIDDEN, "not your message");
                    }
                    let s = db::statement3(
                        "UPDATE messages SET content=?1, edited_at=?2 WHERE id=?3",
                        db::text_arg(content.as_str()),
                        db::text_arg(draw.stamp.as_str()),
                        db::id_arg(id),
                    );
                    Step::Ask(Stage::Editing(Editing::Storing { me, id }), Action::Execute(s))
                },
                event => fail(event),
            },
            Editing::Storing { me, id } => match event {
                Event::Done => {
                    let message_id = id.text();
                    let my_id = me.text();
                    let (hydration, s) = db::hydrate_message(
                        message_id.as_str(),
                        my_id.as_str(),
                    );
                    Step::Ask(Stage::Editing(Editing::Rereading { hydration }), Action::Query(s))
                },
                event => fail(event),
            },
            Editing::Rereading { hydration } => {
                match hydration.next(event, draw.now) {
                    db::Hydrated::Ask(next, s) => Step::Ask(
                        Stage::Editing(Editing::Rereading { hydration: next }),
                        Action::Query(s),
                    ),
                    db::Hydrated::Message(message) => {
                        let told = message.clone();
                        Step::Done(
                            Finish {
                                event: Some(WsEvent::MessageEdited { message: told }),
                                reply: Reply { status: OK, body: Body::Message(message) },
                            },
                        )
                    },
                    db::Hydrated::Missing => refuse(INTERNAL_SERVER_ERROR, "message missing"),
                    db::Hydrated::Broken(e) => refuse(INTERNAL_SERVER_ERROR, e.as_str()),
                }
            },
        }
    }
}

/// How far the deleting of a message by `me` has come.
#[derive(Debug)]
pub enum Deleting {
    /// The author is being looked up,
    Checking { me: Uuid, id: Uuid },
    /// then the message is deleted.
    Removing { id: Uuid, channel: Uuid },
}

/// The first step of `delete_message`.
pub open spec fn begins_delete_message(me: Uuid, message: Uuid, r: Step) -> bool {
    &&& r.queries(
        "SELECT author_id, channel_id FROM messages WHERE id=?1"@,
        seq![db::id_value(message)],
    )
    &&& r.state() == Stage::Deleting(Deleting::Checking { me, id: message })
}

/// Starts to delete a message.
pub fn delete_message(me: Uuid, message: Uuid) -> (r: Step)
    ensures
        begins_delete_message(me, message, r),
        r.wf(),
{
    let s = db::statement1(
        "SELECT author_id, channel_id FROM messages WHERE id=?1",
        db::id_arg(message),
    );
    Step::Ask(Stage::Deleting(Deleting::Checking { me, id: message }), Action::Query(s))
}

impl Deleting {
    pub open spec fn leads_to(self, event: Event, draw: Draw, r: Step) -> bool {
        match (self, event) {
            (Deleting::Checking { me, id }, Event::Rows(rows)) => if rows@.len() == 0 {
                r.refuses(NOT_FOUND, "not found"@)
            } else if db::text_at(rows@[0]@, 0) is None || db::text_at(rows@[0]@, 1) is None {
                r.stumbles()
            } else if db::text_at(rows@[0]@, 0)->0@ != id::hyphenated_text(me.0) {
                r.refuses(FORBIDDEN, "not your message"@)
            } else {
                &&& r.executes("DELETE FROM messages WHERE id=?1"@, seq![db::id_value(id)])
                &&& r.state() == Stage::Deleting(
                    Deleting::Removing {
                        id,
                        channel: id::or_nil(id::parsed_uuid(db::text_at(rows@[0]@, 1)->0@)),
                    },
                )
            },
            (Deleting::Removing { id, channel }, Event::Done) => r == Step::Done(
                Finish {
                    event: Some(WsEvent::MessageDeleted { channel_id: channel, id }),
                    reply: Reply { status: NO_CONTENT, body: Body::Empty },
                },
            ),
            _ => r.fails(event),
        }
    }

    /// Goes on with the deleting of a message.
    pub fn next(self, event: Event, draw: Draw) -> (r: Step)
        ensures
            self.leads_to(event, draw, r),
            r.wf(),
    {
        match (self, event) {
            (Deleting::Checking { me, id }, Event::Rows(rows)) => {
                if rows.len() == 0 {
                    return refuse(NOT_FOUND, "not found");
                }
                match (db::text_cell(&rows[0], 0), db::text_cell(&rows[0], 1)) {
                    (Some(author), Some(channel)) => {
                        let my_id = me.text();
                        if !text::same_text(author.as_str(), my_id.as_str()) {
                            return refuse(FORBIDDEN, "not your message");
                        }
                        let s = db::statement1(
                            "DELETE FROM messages WHERE id=?1",
                            db::id_arg(id),
                        );
                        let channel = Uuid::parse_or_nil(channel.as_str());
                        Step::Ask(
                            Stage::Deleting(Deleting::Removing { id, channel }),
                            Action::Execute(s),
                        )
                    },
                    _ => stumble(),
                }
            },
            (Deleting::Removing { id, channel }, Event::Done) => Step::Done(
                Finish {
                    event: Some(WsEvent::MessageDeleted { channel_id: channel, id }),
                    reply: Reply { status: NO_CONTENT, body: Body::Empty },
                },
            ),
            (_, event) => fail(event),
        }
    }
}

// ---------------------------------------------------------------------------
// Reactions
// ---------------------------------------------------------------------------

/// How far the toggling of a reaction of `me` has come.
#[derive(Debug)]
pub enum Reacting {
    /// The message is being looked up,
    Checking { me: Uuid, id: Uuid, emoji: String },
    /// then the reaction,
    Looking { me: Uuid, id: Uuid, emoji: String, channel: Uuid },
    /// then it is stored or deleted,
    Storing { me: Uuid, id: Uuid, channel: Uuid },
    /// then the message is read back.
    Rereading { id: Uuid, channel: Uuid, hydration: db::Hydration },
}

/// The first step of `toggle_reaction`.
pub open spec fn begins_toggle_reaction(me: Uuid, message: Uuid, emoji: String, r: Step) -> bool {
    &&& r.queries(
        "SELECT id, channel_id FROM messages WHERE id=?1"@,
        seq![db::id_value(message)],
    )
    &&& r.state() == Stage::Reacting(Reacting::Checking { me, id: message, emoji })
}

/// Starts to toggle a reaction.
pub fn toggle_reaction(me: Uuid, message: Uuid, emoji: String) -> (r: Step)
    ensures
        begins_toggle_reaction(me, message, emoji, r),
        r.wf(),
{
    let s = db::statement1(
        "SELECT id, channel_id FROM messages WHERE id=?1",
        db::id_arg(message),
    );
    Step::Ask(
        Stage::Reacting(Reacting::Checking { me, id: message, emoji }),
        Action::Query(s),
    )
}

/// What a reaction is found by: the message, who reacted, and the emoji.
pub open spec fn reaction_key(message: Uuid, me: Uuid, emoji: Seq<char>) -> Seq<db::ValueView> {
    seq![db::id_value(message), db::id_value(me), db::text_value(emoji)]
}

impl Reacting {
    pub open spec fn rereads(r: Step, h: db::Hydrated, id: Uuid, channel: Uuid) -> bool {
        match h {
            db::Hydrated::Ask(next, s) => r == Step::Ask(
                Stage::Reacting(Reacting::Rereading { id, channel, hydration: next }),
                Action::Query(s),
            ),
            db::Hydrated::Message(message) => {
                &&& r matches Step::Done(f)
                &&& f.reply == (Reply { status: OK, body: Body::Message(message) })
                &&& f.event matches Some(
                    WsEvent::ReactionUpdated { channel_id, message_id, reactions },
                )
                &&& channel_id == channel
                &&& message_id == id
                &&& reactions@ == message.reactions@
            },
            db::Hydrated::Missing => r.refuses(INTERNAL_SERVER_ERROR, "message missing"@),
            db::Hydrated::Broken(e) => r.refuses(INTERNAL_SERVER_ERROR, e@),
        }
    }

    pub open spec fn leads_to(self, event: Event, draw: Draw, r: Step) -> bool {
        match self {
            Reacting::Checking { me, id, emoji } => match event {
                Event::Rows(rows) => if rows@.len() == 0 {
                    r.refuses(NOT_FOUND, "not found"@)
                } else if db::text_at(rows@[0]@, 0) is None || db::text_at(rows@[0]@, 1) is None {
                    r.stumbles()
                } else {
                    &&& r.queries(
                        "SELECT emoji FROM reactions WHERE message_id=?1 AND user_id=?2 AND emoji=?3"@,
                        reaction_key(id, me, emoji@),
                    )
                    &&& r.state() == Stage::Reacting(
                        Reacting::Looking {
                            me,
                            id,
                            emoji,
                            channel: id::or_nil(id::parsed_uuid(db::text_at(rows@[0]@, 1)->0@)),
                        },
                    )
                },
                _ => r.fails(event),
            },
            Reacting::Looking { me, id, emoji, channel } => match event {
                Event::Rows(rows) => {
                    &&& if rows@.len() > 0 {
                        r.executes(
                            "DELETE FROM reactions WHERE message_id=?1 AND user_id=?2 AND emoji=?3"@,
                            reaction_key(id, me, emoji@),
                        )
                    } else {
                        r.executes(
                            "INSERT INTO reactions (message_id, user_id, emoji) VALUES (?1,?2,?3)"@,
                            reaction_key(id, me, emoji@),
                        )
                    }
                    &&& r.state() == Stage::Reacting(Reacting::Storing { me, id, channel })
                },
                _ => r.fails(event),
            },
            Reacting::Storing { me, id, channel } => match event {
                Event::Done => {
                    &&& r matches Step::Ask(state, Action::Query(s))
                    &&& state matches Stage::Reacting(
                        Reacting::Rereading { id: i, channel: c, hydration },
                    )
                    &&& i == id
                    &&& c == channel
                    &&& db::starts_hydration(
                        hydration,
                        s,
                        id::hyphenated_text(id.0),
                        id::hyphenated_text(me.0),
                    )
                },
                _ => r.fails(event),
            },
            Reacting::Rereading { id, channel, hydration } => exists|h: db::Hydrated|
                #[trigger] hydration.leads_to(event, draw.now, h) && Reacting::rereads(
                    r,
                    h,
                    id,
                    channel,
                ),
        }
    }

    /// Goes on with the toggling of a reaction.
    pub fn next(self, event: Event, draw: Draw) -> (r: Step)
        ensures
            self.leads_to(event, draw, r),
            r.wf(),
    {
        match self {
            Reacting::Checking { me, id, emoji } => match event {
                Event::Rows(rows) => {
                    if rows.len() == 0 {
                        return refuse(NOT_FOUND, "not found");
                    }
                    match (db::text_cell(&rows[0], 0), db::text_cell(&rows[0], 1)) {
                        (Some(_), Some(channel)) => {
                            let s = db::statement3(
                                "SELECT emoji FROM reactions WHERE message_id=?1 AND user_id=?2 AND emoji=?3",
                                db::id_arg(id),
                                db::id_arg(me),
                                db::text_arg(emoji.as_str()),
                            );
                            let channel = Uuid::parse_or_nil(channel.as_str());
                            Step::Ask(
                                Stage::Reacting(Reacting::Looking { me, id, emoji, channel }),
                                Action::Query(s),
                            )
                        },
                        _ => stumble(),
                    }
                },
                event => fail(event),
            },
            Reacting::Looking { me, id, emoji, channel } => match event {
                Event::Rows(rows) => {
                    let sql = if rows.len() > 0 {
                        "DELETE FROM reactions WHERE message_id=?1 AND user_id=?2 AND emoji=?3"
                    } else {
                        "INSERT INTO reactions (message_id, user_id, emoji) VALUES (?1,?2,?3)"
                    };
                    let s = db::statement3(
                        sql,
                        db::id_arg(id),
                        db::id_arg(me),
                        db::text_arg(emoji.as_str()),
                    );
                    Step::Ask(
                        Stage::Reacting(Reacting::Storing { me, id, channel }),
                        Action::Execute(s),
                    )
                },
                event => fail(event),
            },
            Reacting::Storing { me, id, channel } => match event {
                Event::Done => {
                    let message_id = id.text();
                    let my_id = me.text();
                    let (hydration, s) = db::hydrate_message(
                        message_id.as_str(),
                        my_id.as_str(),
                    );
                    Step::Ask(
                        Stage::Reacting(Reacting::Rereading { id, channel, hydration }),
                        Action::Query(s),
                    )
                },
                event => fail(event),
            },
            Reacting::Rereading { id, channel, hydration } => {
                match hydration.next(event, draw.now) {
                    db::Hydrated::Ask(next, s) => Step::Ask(
                        Stage::Reacting(Reacting::Rereading { id, channel, hydration: next }),
                        Action::Query(s),
                    ),
                    db::Hydrated::Message(message) => {
                        let reactions = protocol::clone_reactions(&message.reactions);
                        Step::Done(
                            Finish {
                                event: Some(
                                    WsEvent::ReactionUpdated {
                                        channel_id: channel,
                                        message_id: id,
                                        reactions,
                                    },
                                ),
                                reply: Reply { status: OK, body: Body::Message(message) },
                            },
                        )
                    },
                    db::Hydrated::Missing => refuse(INTERNAL_SERVER_ERROR, "message missing"),
                    db::Hydrated::Broken(e) => refuse(INTERNAL_SERVER_ERROR, e.as_str()),
                }
            },
        }
    }
}

// ---------------------------------------------------------------------------
// Search
// ---------------------------------------------------------------------------

/// What a search of `me` keeps: messages of a server, by an author.
#[derive(Debug)]
pub struct SearchFilter {
    pub server: Option<Uuid>,
    pub author: Option<String>,
}

/// How far a search has come.
#[derive(Debug)]
pub enum Searching {
    /// The messages' identifiers are awaited, the latest first,
    Listing { me: String, filter: SearchFilter },
    /// then one message after another is read, the one at `at` just now,
    Reading {
        me: String,
        filter: SearchFilter,
        ids: Vec<String>,
        at: usize,
        found: Vec<Message>,
        hydration: db::Hydration,
    },
    /// and the server of its channel is looked up.
    Placing {
        me: String,
        filter: SearchFilter,
        ids: Vec<String>,
        at: usize,
        found: Vec<Message>,
        message: Message,
    },
}

/// How many messages a search finds at most: as many as are asked for, but at least 1 and
/// at most 100, and 25 where nothing is said.
pub open spec fn search_limit(limit: Option<u32>) -> nat {
    match limit {
        Some(n) => if n < 1 {
            1
        } else if n > 100 {
            100
        } else {
            n as nat
        },
        None => 25,
    }
}

/// The statement that finds the messages in which a text occurs.
pub open spec fn search_sql(in_channel: bool, limit: nat) -> Seq<char> {
    "SELECT id FROM messages WHERE content LIKE ?1"@ + (if in_channel {
        " AND channel_id=?"@
    } else {
        ""@
    }) + " ORDER BY created_at DESC LIMIT "@ + text::decimal_text(limit)
}

/// The pattern for texts in which `query` occurs.
pub open spec fn like_pattern(query: Seq<char>) -> Seq<char> {
    "%"@ + query + "%"@
}

/// The first step of `search`.
pub open spec fn begins_search(me: Uuid, q: SearchRequest, r: Step) -> bool {
    &&& r.queries(
        search_sql(q.channel_id is Some, search_limit(q.limit)),
        match q.channel_id {
            Some(channel) => seq![
                db::text_value(like_pattern(q.query@)),
                db::id_value(channel),
            ],
            None => seq![db::text_value(like_pattern(q.query@))],
        },
    )
    &&& r.state() matches Stage::Searching(Searching::Listing { me: m, filter }) && m@
        == id::hyphenated_text(me.0) && filter == (SearchFilter {
        server: q.server_id,
        author: q.author,
    })
}

/// Starts a search.
pub fn search(me: Uuid, q: SearchRequest) -> (r: Step)
    ensures
        begins_search(me, q, r),
        r.wf(),
{
    let limit: u64 = match q.limit {
        Some(n) => if n < 1 {
            1
        } else if n > 100 {
            100
        } else {
            n as u64
        },
        None => 25,
    };
    let mut like = text::joined("%", q.query.as_str());
    like.append("%");
    let mut sql = text::joined(
        "SELECT id FROM messages WHERE content LIKE ?1",
        if q.channel_id.is_some() {
            " AND channel_id=?"
        } else {
            ""
        },
    );
    sql.append(" ORDER BY created_at DESC LIMIT ");
    let number = text::decimal(limit);
    sql.append(number.as_str());
    let s = match q.channel_id {
        Some(channel) => db::statement2(
            sql.as_str(),
            db::text_arg(like.as_str()),
            db::id_arg(channel),
        ),
        None => db::statement1(sql.as_str(), db::text_arg(like.as_str())),
    };
    Step::Ask(
        Stage::Searching(
            Searching::Listing {
                me: me.text(),
                filter: SearchFilter { server: q.server_id, author: q.author },
            },
        ),
        Action::Query(s),
    )
}

/// A message is by an author that is asked for where their name holds the text.
pub open spec fn by_author(filter: SearchFilter, message: Message) -> bool {
    match filter.author {
        Some(author) => text::contains_text(message.author.name@, author@),
        None => true,
    }
}

/// What came of the lookup of a channel's server says that it is `server`.
pub open spec fn is_on_server(event: Event, server: Option<Uuid>) -> bool {
    &&& server matches Some(sid)
    &&& event matches Event::Rows(rows)
    &&& rows@.len() > 0
    &&& db::text_at(rows@[0]@, 0) matches Some(s)
    &&& s@ == id::hyphenated_text(sid.0)
}

impl Searching {
    pub open spec fn wf(self) -> bool {
        match self {
            Searching::Listing { me, filter } => true,
            Searching::Reading { me, filter, ids, at, found, hydration } => found@.len() <= at
                < ids@.len(),
            Searching::Placing { me, filter, ids, at, found, message } => found@.len() <= at
                < ids@.len(),
        }
    }

    /// The message at `at` is read next. Where there are no more, what was found is the
    /// reply.
    pub open spec fn reads_on(
        r: Step,
        me: Seq<char>,
        filter: SearchFilter,
        ids: Seq<String>,
        at: int,
        found: Seq<Message>,
    ) -> bool {
        if at < ids.len() {
            &&& r matches Step::Ask(state, Action::Query(s))
            &&& state matches Stage::Searching(
                Searching::Reading { me: m, filter: f, ids: i, at: a, found: v, hydration },
            )
            &&& m@ == me
            &&& f == filter
            &&& i@ == ids
            &&& a == at
            &&& v@ == found
            &&& db::starts_hydration(hydration, s, ids[at]@, me)
        } else {
            &&& r matches Step::Done(f)
            &&& f.event is None
            &&& f.reply.status == OK
            &&& f.reply.body matches Body::Messages(v)
            &&& v@ == found
        }
    }

    /// What the reading of a message leads to: where a server is asked for, that of its
    /// channel is looked up.
    pub open spec fn takes(
        r: Step,
        h: db::Hydrated,
        me: Seq<char>,
        filter: SearchFilter,
        ids: Seq<String>,
        at: int,
        found: Seq<Message>,
    ) -> bool {
        match h {
            db::Hydrated::Ask(next, s) => {
                &&& r matches Step::Ask(state, Action::Query(st))
                &&& st == s
                &&& state matches Stage::Searching(
                    Searching::Reading { me: m, filter: f, ids: i, at: a, found: v, hydration },
                )
                &&& m@ == me
                &&& f == filter
                &&& i@ == ids
                &&& a == at
                &&& v@ == found
                &&& hydration == next
            },
            db::Hydrated::Message(message) => if filter.server is Some {
                &&& r.queries(
                    "SELECT server_id FROM channels WHERE id=?1"@,
                    seq![db::id_value(message.channel_id)],
                )
                &&& r.state() matches Stage::Searching(
                    Searching::Placing {
                        me: m,
                        filter: f,
                        ids: i,
                        at: a,
                        found: v,
                        message: same,
                    },
                )
                &&& m@ == me
                &&& f == filter
                &&& i@ == ids
                &&& a == at
                &&& v@ == found
                &&& same == message
            } else if by_author(filter, message) {
                Searching::reads_on(r, me, filter, ids, at + 1, found.push(message))
            } else {
                Searching::reads_on(r, me, filter, ids, at + 1, found)
            },
            db::Hydrated::Missing => Searching::reads_on(r, me, filter, ids, at + 1, found),
            db::Hydrated::Broken(e) => r.refuses(INTERNAL_SERVER_ERROR, e@),
        }
    }

    pub open spec fn leads_to(self, event: Event, draw: Draw, r: Step) -> bool {
        match self {
            Searching::Listing { me, filter } => match event {
                Event::Rows(rows) => if db::all_text_rows(rows@) {
                    Searching::reads_on(
                        r,
                        me@,
                        filter,
                        db::first_texts(rows@),
                        0,
                        Seq::empty(),
                    )
                } else {
                    r.stumbles()
                },
                _ => r.fails(event),
            },
            Searching::Reading { me, filter, ids, at, found, hydration } => exists|
                h: db::Hydrated,
            | #[trigger]
                hydration.leads_to(event, draw.now, h) && Searching::takes(
                    r,
                    h,
                    me@,
                    filter,
                    ids@,
                    at as int,
                    found@,
                ),
            // A channel whose server cannot be found is on none.
            Searching::Placing { me, filter, ids, at, found, message } => if is_on_server(
                event,
                filter.server,
            ) && by_author(filter, message) {
                Searching::reads_on(r, me@, filter, ids@, at + 1, found@.push(message))
            } else {
                Searching::reads_on(r, me@, filter, ids@, at + 1, found@)
            },
        }
    }

    fn keep(filter: &SearchFilter, message: &Message) -> (r: bool)
        ensures
            r == by_author(*filter, *message),
    {
        match &filter.author {
            Some(author) => text::contains(message.author.name.as_str(), author.as_str()),
            None => true,
        }
    }

    fn on_server(event: &Event, server: Option<Uuid>) -> (r: bool)
        ensures
            r == is_on_server(*event, server),
    {
        match (server, event) {
            (Some(sid), Event::Rows(rows)) => {
                if rows.len() == 0 {
                    return false;
                }
                match db::text_cell(&rows[0], 0) {
                    Some(s) => {
                        let want = sid.text();
                        text::same_text(s.as_str(), want.as_str())
                    },
                    None => false,
                }
            },
            _ => false,
        }
    }

    fn read_on(
        me: String,
        filter: SearchFilter,
        ids: Vec<String>,
        at: usize,
        found: Vec<Message>,
    ) -> (r: Step)
        ensures
            Searching::reads_on(r, me@, filter, ids@, at as int, found@),
    {
        if at < ids.len() {
            let (hydration, s) = db::hydrate_message(ids[at].as_str(), me.as_str());
            Step::Ask(
                Stage::Searching(
                    Searching::Reading { me, filter, ids, at, found, hydration },
                ),
                Action::Query(s),
            )
        } else {
            reply(OK, Body::Messages(found))
        }
    }

    /// Goes on with a search.
    pub fn next(self, event: Event, draw: Draw) -> (r: Step)
        requires
            self.wf(),
        ensures
            self.leads_to(event, draw, r),
            r.wf(),
    {
        match self {
            Searching::Listing { me, filter } => match event {
                Event::Rows(rows) => match db::map_texts(&rows) {
                    Some(ids) => Searching::read_on(me, filter, ids, 0, Vec::new()),
                    None => stumble(),
                },
                event => fail(event),
            },
            Searching::Reading { me, filter, ids, at, found, hydration } => {
                assert(at < ids.len());
                match hydration.next(event, draw.now) {
                    db::Hydrated::Ask(next, s) => Step::Ask(
                        Stage::Searching(
                            Searching::Reading { me, filter, ids, at, found, hydration: next },
                        ),
                        Action::Query(s),
                    ),
                    db::Hydrated::Message(message) => {
                        if filter.server.is_some() {
                            let s = db::statement1(
                                "SELECT server_id FROM channels WHERE id=?1",
                                db::id_arg(message.channel_id),
                            );
                            return Step::Ask(
                                Stage::Searching(
                                    Searching::Placing { me, filter, ids, at, found, message },
                                ),
                                Action::Query(s),
                            );
                        }
                        let mut found = found;
                        if Searching::keep(&filter, &message) {
                            found.push(message);
                        }
                        Searching::read_on(me, filter, ids, at + 1, found)
                    },
                    db::Hydrated::Missing => Searching::read_on(me, filter, ids, at + 1, found),
                    db::Hydrated::Broken(e) => refuse(INTERNAL_SERVER_ERROR, e.as_str()),
                }
            },
            Searching::Placing { me, filter, ids, at, found, message } => {
                assert(at < ids.len());
                let mut found = found;
                if Searching::on_server(&event, filter.server) && Searching::keep(
                    &filter,
                    &message,
                ) {
                    found.push(message);
                }
                Searching::read_on(me, filter, ids, at + 1, found)
            },
        }
    }
}

// ---------------------------------------------------------------------------
// Notifications
// ---------------------------------------------------------------------------

/// A row of the notifications' table.
#[derive(Debug)]
pub struct NotificationRow {
    pub id: String,
    pub channel_id: String,
    pub message_id: String,
    pub kind: String,
    pub created_at: String,
    pub read: i64,
}

/// How far the listing of the notifications of `me` has come.
#[derive(Debug)]
pub enum Notifying {
    /// The notifications are awaited, the latest first,
    Listing { me: String },
    /// then their messages are read, the one of the row at `at` just now.
    Reading {
        me: String,
        rows: Vec<NotificationRow>,
        at: usize,
        found: Vec<Notification>,
        hydration: db::Hydration,
    },
}

/// The first step of `list_notifications`.
pub open spec fn begins_list_notifications(me: Uuid, r: Step) -> bool {
    &&& r.queries(
        "SELECT id, channel_id, message_id, kind, created_at, read FROM notifications WHERE user_id=?1 ORDER BY created_at DESC LIMIT 50"@,
        seq![db::id_value(me)],
    )
    &&& r.state() matches Stage::Notifying(Notifying::Listing { me: m }) && m@
        == id::hyphenated_text(me.0)
}

/// Starts to list the notifications of a user.
pub fn list_notifications(me: Uuid) -> (r: Step)
    ensures
        begins_list_notifications(me, r),
        r.wf(),
{
    let s = db::statement1(
        "SELECT id, channel_id, message_id, kind, created_at, read FROM notifications WHERE user_id=?1 ORDER BY created_at DESC LIMIT 50",
        db::id_arg(me),
    );
    Step::Ask(Stage::Notifying(Notifying::Listing { me: me.text() }), Action::Query(s))
}

pub open spec fn has_notification_cells(row: Seq<db::Value>) -> bool {
    &&& db::text_at(row, 0) is Some
    &&& db::text_at(row, 1) is Some
    &&& db::text_at(row, 2) is Some
    &&& db::text_at(row, 3) is Some
    &&& db::text_at(row, 4) is Some
    &&& db::int_at(row, 5) is Some
}

/// What the cells of such a row are called.
pub open spec fn notification_row(row: Seq<db::Value>) -> NotificationRow {
    NotificationRow {
        id: db::text_at(row, 0)->0,
        channel_id: db::text_at(row, 1)->0,
        message_id: db::text_at(row, 2)->0,
        kind: db::text_at(row, 3)->0,
        created_at: db::text_at(row, 4)->0,
        read: db::int_at(row, 5)->0,
    }
}

pub open spec fn all_notification_rows(rows: Seq<Vec<db::Value>>) -> bool {
    forall|i: int| 0 <= i < rows.len() ==> has_notification_cells((#[trigger] rows[i])@)
}

pub open spec fn notification_rows(rows: Seq<Vec<db::Value>>) -> Seq<NotificationRow> {
    rows.map_values(|row: Vec<db::Value>| notification_row(row@))
}

fn map_notification(row: &Vec<db::Value>) -> (r: Option<NotificationRow>)
    ensures
        r is Some <==> has_notification_cells(row@),
        r matches Some(n) ==> n == notification_row(row@),
{
    match (db::text_cell(row, 0), db::text_cell(row, 1), db::text_cell(row, 2)) {
        (Some(notification_id), Some(channel_id), Some(message_id)) => {
            match (db::text_cell(row, 3), db::text_cell(row, 4), db::int_cell(row, 5)) {
                (Some(kind), Some(created_at), Some(read)) => Some(
                    NotificationRow {
                        id: notification_id,
                        channel_id,
                        message_id,
                        kind,
                        created_at,
                        read,
                    },
                ),
                _ => None,
            }
        },
        _ => None,
    }
}

fn map_notifications(rows: &Vec<Vec<db::Value>>) -> (r: Option<Vec<NotificationRow>>)
    ensures
        r is Some <==> all_notification_rows(rows@),
        r matches Some(v) ==> v@ == notification_rows(rows@),
{
    let mut out: Vec<NotificationRow> = Vec::new();
    let mut i: usize = 0;
    let ghost want = notification_rows(rows@);
    while i < rows.len()
        invariant
            i <= rows@.len(),
            want == notification_rows(rows@),
            out@ == want.take(i as int),
            forall|k: int| 0 <= k < i ==> has_notification_cells((#[trigger] rows@[k])@),
        decreases rows@.len() - i,
    {
        match map_notification(&rows[i]) {
            Some(n) => {
                out.push(n);
                assert(want.take(i + 1) =~= want.take(i as int).push(want[i as int]));
            },
            None => {
                assert(!has_notification_cells(rows@[i as int]@));
                return None;
            },
        }
        i += 1;
    }
    assert(want.take(i as int) =~= want);
    Some(out)
}

/// The kind of notification that a stored word stands for. An unknown word stands for a
/// mention.
pub open spec fn notification_kind(word: Seq<char>) -> NotificationKind {
    if word == "reply"@ {
        NotificationKind::Reply
    } else if word == "direct"@ {
        NotificationKind::Direct
    } else {
        NotificationKind::Mention
    }
}

/// The notification that a row and its message make up.
pub open spec fn is_notification(
    row: NotificationRow,
    message: Message,
    now: Timestamp,
    n: Notification,
) -> bool {
    &&& n.id == id::or_nil(id::parsed_uuid(row.id@))
    &&& n.channel_id == id::or_nil(id::parsed_uuid(row.channel_id@))
    &&& n.message == message
    &&& n.kind == notification_kind(row.kind@)
    &&& db::reads_as(n.created_at, row.created_at@, now)
    &&& n.read == (row.read != 0)
}

fn make_notification(row: &NotificationRow, message: Message, now: Timestamp) -> (r: Notification)
    ensures
        is_notification(*row, message, now, r),
{
    let kind = if text::same_text(row.kind.as_str(), "reply") {
        NotificationKind::Reply
    } else if text::same_text(row.kind.as_str(), "direct") {
        NotificationKind::Direct
    } else {
        NotificationKind::Mention
    };
    Notification {
        id: Uuid::parse_or_nil(row.id.as_str()),
        channel_id: Uuid::parse_or_nil(row.channel_id.as_str()),
        message,
        kind,
        created_at: db::stored_time(row.created_at.as_str(), now),
        read: row.read != 0,
    }
}

impl Notifying {
    pub open spec fn wf(self) -> bool {
        match self {
            Notifying::Listing { me } => true,
            Notifying::Reading { me, rows, at, found, hydration } => found@.len() <= at
                < rows@.len(),
        }
    }

    /// The message of the row at `at` is read next. Where there are no more, what was found
    /// is the reply.
    pub open spec fn reads_on(
        r: Step,
        me: Seq<char>,
        rows: Seq<NotificationRow>,
        at: int,
        found: Seq<Notification>,
    ) -> bool {
        if at < rows.len() {
            &&& r matches Step::Ask(state, Action::Query(s))
            &&& state matches Stage::Notifying(
                Notifying::Reading { me: m, rows: w, at: a, found: v, hydration },
            )
            &&& m@ == me
            &&& w@ == rows
            &&& a == at
            &&& v@ == found
            &&& db::starts_hydration(hydration, s, rows[at].message_id@, me)
        } else {
            &&& r matches Step::Done(f)
            &&& f.event is None
            &&& f.reply.status == OK
            &&& f.reply.body matches Body::Notifications(v)
            &&& v@ == found
        }
    }

    /// What the reading of a message leads to. A notification of a message that is gone is
    /// left out.
    pub open spec fn takes(
        r: Step,
        h: db::Hydrated,
        me: Seq<char>,
        rows: Seq<NotificationRow>,
        at: int,
        found: Seq<Notification>,
        now: Timestamp,
    ) -> bool {
        match h {
            db::Hydrated::Ask(next, s) => {
                &&& r matches Step::Ask(state, Action::Query(st))
                &&& st == s
                &&& state matches Stage::Notifying(
                    Notifying::Reading { me: m, rows: w, at: a, found: v, hydration },
                )
                &&& m@ == me
                &&& w@ == rows
                &&& a == at
                &&& v@ == found
                &&& hydration == next
            },
            db::Hydrated::Message(message) => exists|n: Notification| #[trigger]
                is_notification(rows[at], message, now, n) && Notifying::reads_on(
                    r,
                    me,
                    rows,
                    at + 1,
                    found.push(n),
                ),
            db::Hydrated::Missing => Notifying::reads_on(r, me, rows, at + 1, found),
            db::Hydrated::Broken(e) => r.refuses(INTERNAL_SERVER_ERROR, e@),
        }
    }

    pub open spec fn leads_to(self, event: Event, draw: Draw, r: Step) -> bool {
        match self {
            Notifying::Listing { me } => match event {
                Event::Rows(rows) => if all_notification_rows(rows@) {
                    Notifying::reads_on(r, me@, notification_rows(rows@), 0, Seq::empty())
                } else {
                    r.stumbles()
                },
                _ => r.fails(event),
            },
            Notifying::Reading { me, rows, at, found, hydration } => exists|h: db::Hydrated|
                #[trigger] hydration.leads_to(event, draw.now, h) && Notifying::takes(
                    r,
                    h,
                    me@,
                    rows@,
                    at as int,
                    found@,
                    draw.now,
                ),
        }
    }

    fn read_on(
        me: String,
        rows: Vec<NotificationRow>,
        at: usize,
        found: Vec<Notification>,
    ) -> (r: Step)
        ensures
            Notifying::reads_on(r, me@, rows@, at as int, found@),
    {
        if at < rows.len() {
            let (hydration, s) = db::hydrate_message(rows[at].message_id.as_str(), me.as_str());
            Step::Ask(
                Stage::Notifying(Notifying::Reading { me, rows, at, found, hydration }),
                Action::Query(s),
            )
        } else {
            reply(OK, Body::Notifications(found))
        }
    }

    /// Goes on with the listing of notifications.
    pub fn next(self, event: Event, draw: Draw) -> (r: Step)
        requires
            self.wf(),
        ensures
            self.leads_to(event, draw, r),
            r.wf(),
    {
        match self {
            Notifying::Listing { me } => match event {
                Event::Rows(rows) => match map_notifications(&rows) {
                    Some(rows) => Notifying::read_on(me, rows, 0, Vec::new()),
                    None => stumble(),
                },
                event => fail(event),
            },
            Notifying::Reading { me, rows, at, found, hydration } => {
                assert(at < rows.len());
                match hydration.next(event, draw.now) {
                    db::Hydrated::Ask(next, s) => Step::Ask(
                        Stage::Notifying(
                            Notifying::Reading { me, rows, at, found, hydration: next },
                        ),
                        Action::Query(s),
                    ),
                    db::Hydrated::Message(message) => {
                        let mut found = found;
                        found.push(make_notification(&rows[at], message, draw.now));
                        Notifying::read_on(me, rows, at + 1, found)
                    },
                    db::Hydrated::Missing => Notifying::read_on(me, rows, at + 1, found),
                    db::Hydrated::Broken(e) => refuse(INTERNAL_SERVER_ERROR, e.as_str()),
                }
            },
        }
    }
}

// ---------------------------------------------------------------------------
// Laws
// ---------------------------------------------------------------------------

/// A message is changed only where the one who asks is its author.
pub proof fn law_only_authors_edit(s: Editing, event: Event, draw: Draw, r: Step)
    requires
        s is Checking,
        s.leads_to(event, draw, r),
        r.writes(),
    ensures
        ({
            &&& event matches Event::Rows(rows)
            &&& rows@.len() > 0
            &&& db::text_at(rows@[0]@, 0) matches Some(author)
            &&& author@ == id::hyphenated_text(s->Checking_me.0)
        }),
{
}

/// A message is deleted only where the one who asks is its author.
pub proof fn law_only_authors_delete(s: Deleting, event: Event, draw: Draw, r: Step)
    requires
        s is Checking,
        s.leads_to(event, draw, r),
        r.writes(),
    ensures
        ({
            &&& event matches Event::Rows(rows)
            &&& rows@.len() > 0
            &&& db::text_at(rows@[0]@, 0) matches Some(author)
            &&& author@ == id::hyphenated_text(s->Checking_me.0)
        }),
{
}

/// A message with an idempotency key is stored only where none with that key is there: the
/// lookup has no rows, or the message that it names is gone.
pub proof fn law_a_key_stores_one_message(s: Sending, event: Event, draw: Draw, r: Step)
    requires
        s is Looking || s is Recalling,
        s.leads_to(event, draw, r),
        r.writes(),
    ensures
        event matches Event::Rows(rows) && rows@.len() == 0,
        s matches Sending::Recalling { hydration, .. } ==> hydration.stage is Row,
{
}

/// A message that was stored before is the reply again, and nobody is told of it twice.
pub proof fn law_a_key_gives_the_message_again(
    s: Sending,
    rows: Vec<Vec<db::Value>>,
    draw: Draw,
    r: Step,
)
    requires
        s matches Sending::Recalling { hydration, .. } && hydration.stage is Reactions,
        db::all_reaction_rows(rows@),
        s.leads_to(Event::Rows(rows), draw, r),
    ensures
        ({
            &&& r matches Step::Done(f)
            &&& f.event is None
            &&& f.reply.status == OK
            &&& f.reply.body matches Body::Message(m)
            &&& s matches Sending::Recalling { hydration, .. }
            &&& hydration.stage matches db::HydrationStage::Reactions(row, author)
            &&& db::is_message(row, author, rows@, draw.now, m)
        }),
{
}

/// Toggling stores the reaction where it is not there and deletes it where it is, and it is
/// the same reaction either way.
pub proof fn law_reactions_toggle(
    s: Reacting,
    absent: Vec<Vec<db::Value>>,
    present: Vec<Vec<db::Value>>,
    draw: Draw,
    on: Step,
    off: Step,
)
    requires
        s is Looking,
        absent@.len() == 0,
        present@.len() > 0,
        s.leads_to(Event::Rows(absent), draw, on),
        s.leads_to(Event::Rows(present), draw, off),
    ensures
        ({
            &&& on matches Step::Ask(_, Action::Execute(stored))
            &&& off matches Step::Ask(_, Action::Execute(deleted))
            &&& stored.sql@
                == "INSERT INTO reactions (message_id, user_id, emoji) VALUES (?1,?2,?3)"@
            &&& deleted.sql@
                == "DELETE FROM reactions WHERE message_id=?1 AND user_id=?2 AND emoji=?3"@
            &&& db::value_views(stored.args@) == db::value_views(deleted.args@)
        }),
{
}

/// A page holds at most 100 messages, however many are asked for.
pub proof fn law_pages_are_bounded(s: History, event: Event, draw: Draw, r: Step)
    requires
        s.wf(),
        s.leads_to(event, draw, r),
    ensures
        r.wf(),
        r matches Step::Done(f) ==> (f.reply.body matches Body::Page(page) ==> page.items@.len()
            <= 100),
{
    match s {
        History::Listing { me, limit } => {},
        History::Reading { me, ids, at, has_more, items, hydration } => {
            let h = choose|h: db::Hydrated| #[trigger]
                hydration.leads_to(event, draw.now, h) && History::takes(
                    r,
                    h,
                    me@,
                    ids@,
                    at as int,
                    has_more,
                    items@,
                );
            assert(History::takes(r, h, me@, ids@, at as int, has_more, items@));
        },
    }
}

/// Those whom a message mentions are found in order and without a gap, and its author is
/// never among them.
pub proof fn law_mentions_are_found_in_order(message: Message, users: Seq<Named>, at: int)
    requires
        0 <= at,
    ensures
        match next_mentioned(message, users, at) {
            Some(k) => {
                &&& at <= k < users.len()
                &&& mentions(message, users[k])
                &&& users[k].id@ != id::hyphenated_text(message.author.id.0)
                &&& forall|j: int| at <= j < k ==> !mentions(message, #[trigger] users[j])
            },
            None => forall|j: int|
                at <= j < users.len() ==> !mentions(message, #[trigger] users[j]),
        },
    decreases users.len() - at,
{
    if at < users.len() && !mentions(message, users[at]) {
        law_mentions_are_found_in_order(message, users, at + 1);
    }
}

} // verus!

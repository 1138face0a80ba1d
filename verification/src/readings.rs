//! What the server's lists hold: which rows they are read from, in which order, and what each
//! row becomes.

use crate::calls::{has_rows, read_id, Call};
use crate::db;
use crate::db::{Value, ValueView};
use crate::exchange::{Body, Draw, Event};
use crate::id;
use crate::id::Uuid;
use crate::messages;
use crate::messages::{History, HistoryQuery, Notifying, SearchFilter, Searching};
use crate::outcomes::{args, asks, ends_with, id_text};
use crate::protocol::{Message, Notification, NotificationKind, SearchRequest, User};
use crate::routes::{AppState, Request};
use crate::text;
use crate::time;
use crate::time::Timestamp;
use vstd::prelude::*;

verus! {

// ---------------------------------------------------------------------------
// One message
// ---------------------------------------------------------------------------

/// What a cell with a text or nothing says, as an identifier.
pub open spec fn read_optional_id(v: ValueView) -> Option<Uuid> {
    match v {
        ValueView::Text(s) => match id::parsed_uuid(s) {
            Some(u) => Some(Uuid(u)),
            None => None,
        },
        _ => None,
    }
}

/// A point in time is the one that a text spells.
pub open spec fn is_time(t: Timestamp, v: ValueView) -> bool {
    v is Text && (time::parsed_time(v->Text_0) matches Some(p) ==> t.spec_secs() == p.0
        && t.spec_nanos() == p.1)
}

/// What the row of a user says: `id, name, display_name, bot, created_at, avatar`.
pub open spec fn tells_user(row: Seq<Value>, u: User) -> bool {
    &&& row.len() >= 6
    &&& row[0]@ is Text && u.id == read_id(row[0]@->Text_0)
    &&& row[1]@ == ValueView::Text(u.name@)
    &&& row[2]@ == (match u.display_name {
        Some(d) => ValueView::Text(d@),
        None => ValueView::Null,
    })
    &&& row[3]@ is Int && u.bot == (row[3]@->Int_0 != 0)
    &&& is_time(u.created_at, row[4]@)
    &&& row[5]@ is Int && (row[5]@->Int_0 == 0 ==> u.avatar_url is None) && (row[5]@->Int_0 != 0
        ==> (u.avatar_url matches Some(a) && a@ == "/api/v1/users/"@ + id::hyphenated_text(u.id.0)
        + "/avatar"@))
}

pub proof fn lemma_user(row: Vec<Value>, now: Timestamp, u: User)
    requires
        db::is_stored_user(row@, now, u),
    ensures
        tells_user(row@, u),
{
}

/// What the row of a message says: `id, channel_id, author_id, content, created_at,
/// edited_at, reply_to, pinned`, with the row of its author and the rows of its reactions:
/// `emoji`, how many, and how many of the asker's own.
pub open spec fn tells_message(
    row: Seq<Value>,
    author: Seq<Value>,
    reactions: Seq<Vec<Value>>,
    m: Message,
) -> bool {
    &&& row.len() >= 8
    &&& row[0]@ is Text && m.id == read_id(row[0]@->Text_0)
    &&& row[1]@ is Text && m.channel_id == read_id(row[1]@->Text_0)
    &&& tells_user(author, m.author)
    &&& row[3]@ == ValueView::Text(m.content@)
    &&& is_time(m.created_at, row[4]@)
    &&& row[5]@ is Null ==> m.edited_at is None
    &&& row[5]@ is Text ==> (time::parsed_time(row[5]@->Text_0) is Some == m.edited_at is Some) && (
    m.edited_at matches Some(t) ==> is_time(t, row[5]@))
    &&& m.reply_to == read_optional_id(row[6]@)
    &&& row[7]@ is Int && m.pinned == (row[7]@->Int_0 != 0)
    &&& m.reactions@.len() == reactions.len()
    &&& forall|i: int|
        0 <= i < reactions.len() ==> {
            let c = #[trigger] m.reactions@[i];
            let r = reactions[i]@;
            &&& r[0]@ == ValueView::Text(c.emoji@)
            &&& r[1]@ is Int && (r[1]@->Int_0 >= 0 ==> c.count == r[1]@->Int_0)
            &&& c.me == (r[2]@ is Int && r[2]@->Int_0 > 0)
        }
    &&& m.attachments@.len() == 0
    &&& m.embeds@.len() == 0
}

/// From step `t` on a call reads a message for a user: its row, which is there, its author
/// and its reactions. This is the message that they tell of.
pub open spec fn reads_message(call: Call, t: int, me: Uuid, m: Message) -> bool {
    &&& 0 <= t && t + 2 < call.events.len()
    &&& asks(
        call.steps[t],
        "SELECT id, channel_id, author_id, content, created_at, edited_at, reply_to, pinned FROM messages WHERE id=?1"@,
    )
    &&& has_rows(call.events[t])
    &&& asks(
        call.steps[t + 1],
        "SELECT id, name, display_name, bot, created_at, avatar FROM users WHERE id=?1"@,
    )
    &&& args(call.steps[t + 1]) == seq![call.events[t]->Rows_0@[0]@[2]@]
    &&& has_rows(call.events[t + 1])
    &&& asks(
        call.steps[t + 2],
        "SELECT emoji, COUNT(*), SUM(CASE WHEN user_id=?2 THEN 1 ELSE 0 END) FROM reactions WHERE message_id=?1 GROUP BY emoji"@,
    )
    &&& args(call.steps[t + 2]) == seq![call.events[t]->Rows_0@[0]@[0]@, id_text(me)]
    &&& call.events[t + 2] is Rows
    &&& tells_message(
        call.events[t]->Rows_0@[0]@,
        call.events[t + 1]->Rows_0@[0]@,
        call.events[t + 2]->Rows_0@,
        m,
    )
}

/// A message that was read in three steps.
pub proof fn lemma_message(
    h: (db::Hydration, db::Hydration, db::Hydration),
    events: (Event, Event, Event),
    now: (Timestamp, Timestamp, Timestamp),
    s: (db::Statement, db::Statement),
    m: Message,
)
    requires
        h.0.stage is Row,
        h.0.leads_to(events.0, now.0, db::Hydrated::Ask(h.1, s.0)),
        h.1.leads_to(events.1, now.1, db::Hydrated::Ask(h.2, s.1)),
        h.2.leads_to(events.2, now.2, db::Hydrated::Message(m)),
    ensures
        has_rows(events.0),
        has_rows(events.1),
        events.2 is Rows,
        s.0.is(
            "SELECT id, name, display_name, bot, created_at, avatar FROM users WHERE id=?1"@,
            seq![events.0->Rows_0@[0]@[2]@],
        ),
        s.1.is(
            "SELECT emoji, COUNT(*), SUM(CASE WHEN user_id=?2 THEN 1 ELSE 0 END) FROM reactions WHERE message_id=?1 GROUP BY emoji"@,
            seq![events.0->Rows_0@[0]@[0]@, ValueView::Text(h.0.me@)],
        ),
        tells_message(
            events.0->Rows_0@[0]@,
            events.1->Rows_0@[0]@,
            events.2->Rows_0@,
            m,
        ),
{
    let row = events.0->Rows_0@[0];
    let author = events.1->Rows_0@[0];
    let reactions = events.2->Rows_0@;
    let stage = h.2.stage;
    let user = stage->Reactions_1;
    lemma_user(author, now.1, user);
    assert forall|i: int| 0 <= i < reactions.len() implies {
        let c = #[trigger] m.reactions@[i];
        let r = reactions[i]@;
        &&& r[0]@ == ValueView::Text(c.emoji@)
        &&& r[1]@ is Int && (r[1]@->Int_0 >= 0 ==> c.count == r[1]@->Int_0)
        &&& c.me == (r[2]@ is Int && r[2]@->Int_0 > 0)
    } by {
        assert(m.reactions@[i] == db::reaction_of(reactions[i]@));
        assert(db::has_reaction_cells(reactions[i]@));
    }
}

proof fn lemma_pairs_front<A>(s: Seq<A>, rest: Seq<A>, a: A, pred: spec_fn(A) -> bool)
    requires
        s == seq![a] + rest,
    ensures
        s.filter(pred) == (if pred(a) {
            seq![a]
        } else {
            Seq::empty()
        }) + rest.filter(pred),
{
    let one = seq![a];
    Seq::filter_distributes_over_add(one, rest, pred);
    reveal(Seq::filter);
    assert(one.drop_last() =~= Seq::<A>::empty());
    assert(one.drop_last().filter(pred) =~= Seq::<A>::empty());
    if pred(a) {
        assert(one.filter(pred) =~= one);
    } else {
        assert(one.filter(pred) =~= Seq::<A>::empty());
    }
}

proof fn lemma_no_pairs<A>(pred: spec_fn(A) -> bool)
    ensures
        Seq::<A>::empty().filter(pred) == Seq::<A>::empty(),
{
    reveal(Seq::filter);
}

/// A call does not go on behind its end.
pub proof fn lemma_end(state: AppState, call: Call, i: int)
    requires
        call.follows(state),
        0 <= i < call.steps.len(),
        call.steps[i] is Done,
    ensures
        i == call.steps.len() - 1,
{
    if i < call.events.len() {
        assert(call.advances(state, i));
    }
}

/// A row with the step from which on the message that it names is read.
pub type Reading = (Vec<Value>, int);

proof fn lemma_rows_front(p: Reading, rest: Seq<Reading>, rows: Seq<Vec<Value>>, at: int)
    requires
        0 <= at < rows.len(),
        p.0 == rows[at],
        rest.map_values(|p: Reading| p.0) == rows.skip(at + 1),
    ensures
        (seq![p] + rest).map_values(|p: Reading| p.0) == rows.skip(at),
{
    let all = (seq![p] + rest).map_values(|p: Reading| p.0);
    let tail = rest.map_values(|p: Reading| p.0);
    assert(tail.len() == rest.len());
    assert forall|i: int| 0 <= i < all.len() implies all[i] == rows.skip(at)[i] by {
        if i > 0 {
            assert(all[i] == tail[i - 1]);
            assert(rows.skip(at + 1)[i - 1] == rows[at + i]);
        }
    }
    assert(all =~= rows.skip(at));
}

/// For each row in turn, the message that it names is asked for.
pub open spec fn asks_for_each(call: Call, ps: Seq<Reading>, cell: int) -> bool {
    forall|n: int|
        0 <= n < ps.len() ==> {
            let p = #[trigger] ps[n];
            &&& 0 <= p.1 < call.events.len()
            &&& asks(
                call.steps[p.1],
                "SELECT id, channel_id, author_id, content, created_at, edited_at, reply_to, pinned FROM messages WHERE id=?1"@,
            )
            &&& args(call.steps[p.1]) == seq![p.0@[cell]@]
        }
}

/// The rows whose message is still there.
pub open spec fn still_there(call: Call, ps: Seq<Reading>) -> Seq<Reading> {
    ps.filter(|p: Reading| has_rows(call.events[p.1]))
}

// ---------------------------------------------------------------------------
// History
// ---------------------------------------------------------------------------

proof fn lemma_history(
    state: AppState,
    call: Call,
    i: int,
    me: Uuid,
    rows: Seq<Vec<Value>>,
    at: int,
    more: bool,
    items: Seq<Message>,
) -> (r: (Seq<Reading>, Seq<Message>))
    requires
        call.follows(state),
        ends_with(call, 200),
        0 <= i < call.steps.len(),
        0 <= at <= rows.len(),
        db::all_text_rows(rows),
        History::reads_on(
            call.steps[i],
            id::hyphenated_text(me.0),
            db::first_texts(rows),
            at,
            more,
            items,
        ),
    ensures
        r.0.map_values(|p: Reading| p.0) == rows.skip(at),
        asks_for_each(call, r.0, 0),
        r.1.len() == still_there(call, r.0).len(),
        forall|k: int|
            0 <= k < r.1.len() ==> reads_message(
                call,
                still_there(call, r.0)[k].1,
                me,
                #[trigger] r.1[k],
            ),
        call.steps.last()->Done_0.event is None,
        call.steps.last()->Done_0.reply.body matches Body::Page(page) && page.items@ == (items
            + r.1).reverse() && page.has_more == more,
        forall|k: int| i <= k < call.steps.len() ==> !(#[trigger] call.steps[k]).writes(),
    decreases call.steps.len() - i,
{
    let steps = call.steps;
    let ids = db::first_texts(rows);
    let pred = |p: Reading| has_rows(call.events[p.1]);
    if at >= rows.len() {
        lemma_end(state, call, i);
        let none = Seq::<Reading>::empty();
        lemma_no_pairs(pred);
        assert(none.map_values(|p: Reading| p.0) =~= rows.skip(at));
        assert(items + Seq::<Message>::empty() =~= items);
        (none, Seq::empty())
    } else {
        assert(call.advances(state, i));
        assert(ids[at]@ == rows[at]@[0]@->Text_0);
        let s = steps[i].state()->History_0;
        let h0 = s->Reading_hydration;
        let x0 = choose|h: db::Hydrated| #[trigger]
            h0.leads_to(call.events[i], call.draws[i].now, h) && History::takes(
                steps[i + 1],
                h,
                id::hyphenated_text(me.0),
                ids,
                at,
                more,
                items,
            );
        assert(History::takes(
            steps[i + 1],
            x0,
            id::hyphenated_text(me.0),
            ids,
            at,
            more,
            items,
        ));
        if x0 is Broken {
            lemma_end(state, call, i + 1);
        }
        let p = (rows[at], i);
        if x0 is Missing {
            let r = lemma_history(state, call, i + 1, me, rows, at + 1, more, items);
            let ps = seq![p] + r.0;
            lemma_pairs_front(ps, r.0, p, pred);
            assert(still_there(call, ps) =~= still_there(call, r.0));
            lemma_rows_front(p, r.0, rows, at);
            (ps, r.1)
        } else {
            assert(x0 is Ask);
            assert(call.advances(state, i + 1));
            let h1 = x0->Ask_0;
            let x1 = choose|h: db::Hydrated| #[trigger]
                h1.leads_to(call.events[i + 1], call.draws[i + 1].now, h) && History::takes(
                    steps[i + 2],
                    h,
                    id::hyphenated_text(me.0),
                    ids,
                    at,
                    more,
                    items,
                );
            assert(History::takes(
                steps[i + 2],
                x1,
                id::hyphenated_text(me.0),
                ids,
                at,
                more,
                items,
            ));
            if x1 is Broken {
                lemma_end(state, call, i + 2);
            }
            assert(x1 is Ask);
            assert(call.advances(state, i + 2));
            let h2 = x1->Ask_0;
            let x2 = choose|h: db::Hydrated| #[trigger]
                h2.leads_to(call.events[i + 2], call.draws[i + 2].now, h) && History::takes(
                    steps[i + 3],
                    h,
                    id::hyphenated_text(me.0),
                    ids,
                    at,
                    more,
                    items,
                );
            assert(History::takes(
                steps[i + 3],
                x2,
                id::hyphenated_text(me.0),
                ids,
                at,
                more,
                items,
            ));
            if x2 is Broken {
                lemma_end(state, call, i + 3);
            }
            assert(x2 is Message);
            let m = x2->Message_0;
            lemma_message(
                (h0, h1, h2),
                (call.events[i], call.events[i + 1], call.events[i + 2]),
                (call.draws[i].now, call.draws[i + 1].now, call.draws[i + 2].now),
                (x0->Ask_1, x1->Ask_1),
                m,
            );
            assert(reads_message(call, i, me, m));
            let r = lemma_history(
                state,
                call,
                i + 3,
                me,
                rows,
                at + 1,
                more,
                items.push(m),
            );
            let ps = seq![p] + r.0;
            let got = seq![m] + r.1;
            lemma_pairs_front(ps, r.0, p, pred);
            assert(still_there(call, ps) =~= seq![p] + still_there(call, r.0));
            lemma_rows_front(p, r.0, rows, at);
            assert(items.push(m) + r.1 =~= items + got);
            assert forall|k: int| 0 <= k < got.len() implies reads_message(
                call,
                still_there(call, ps)[k].1,
                me,
                #[trigger] got[k],
            ) by {
                if k > 0 {
                    assert(got[k] == r.1[k - 1]);
                }
            }
            (ps, got)
        }
    }
}

/// A page of a channel's history is made of the latest messages, or of the latest before a
/// given one: as many as are asked for, 50 where no number is given, never more than 100 and
/// at least one. One more is asked for, to say whether there are more. Every message that the
/// rows name and that is still there is on the page, whole, and the oldest comes first.
/// Nothing is written.
pub proof fn law_history_is_read_in_order(
    state: AppState,
    user: User,
    token: String,
    channel: Uuid,
    q: HistoryQuery,
    draw: Draw,
    call: Call,
) -> (r: (int, Seq<Reading>))
    requires
        call.follows(state),
        state.runs(user, token, Request::History(channel, q), draw, call.steps[0]),
        ends_with(call, 200),
    ensures
        ({
            let n = r.0;
            let ps = r.1;
            let read = ps.filter(|p: Reading| has_rows(call.events[p.1]));
            let f = call.steps.last()->Done_0;
            let rows = call.events[0]->Rows_0@;
            &&& q.limit is None ==> n == 50
            &&& q.limit matches Some(l) ==> (1 <= l <= 100 ==> n == l) && (l < 1 ==> n == 1) && (l
                > 100 ==> n == 100)
            &&& q.before is None ==> asks(
                call.steps[0],
                "SELECT id FROM messages WHERE channel_id=?1 ORDER BY created_at DESC LIMIT ?2"@,
            ) && args(call.steps[0]) == seq![id_text(channel), ValueView::Int((n + 1) as i64)]
            &&& q.before matches Some(b) ==> asks(
                call.steps[0],
                "SELECT id FROM messages WHERE channel_id=?1 AND created_at < (SELECT created_at FROM messages WHERE id=?2) ORDER BY created_at DESC LIMIT ?3"@,
            ) && args(call.steps[0]) == seq![
                id_text(channel),
                ValueView::Text(b@),
                ValueView::Int((n + 1) as i64),
            ]
            &&& call.events.len() > 0 && call.events[0] is Rows
            &&& ps.map_values(|p: Reading| p.0) == (if rows.len() > n {
                rows.take(n)
            } else {
                rows
            })
            &&& asks_for_each(call, ps, 0)
            &&& f.event is None
            &&& f.reply.body is Page
            &&& f.reply.body->Page_0.has_more == (rows.len() > n)
            &&& f.reply.body->Page_0.items@.len() == read.len()
            &&& forall|k: int|
                0 <= k < read.len() ==> reads_message(
                    call,
                    (#[trigger] read[k]).1,
                    user.id,
                    f.reply.body->Page_0.items@[read.len() - 1 - k],
                )
            &&& forall|k: int|
                0 <= k < call.steps.len() ==> !(#[trigger] call.steps[k]).writes()
        }),
{
    let n = messages::page_limit(q.limit);
    if call.steps[0] is Done {
        lemma_end(state, call, 0);
    }
    assert(call.advances(state, 0));
    if call.steps[1] is Done {
        lemma_end(state, call, 1);
    }
    let all = call.events[0]->Rows_0@;
    let rows = if all.len() > n {
        all.take(n)
    } else {
        all
    };
    assert forall|i: int| 0 <= i < rows.len() implies db::text_at((#[trigger] rows[i])@, 0) is Some by {
        assert(rows[i] == all[i]);
    }
    assert(messages::first_ids(db::first_texts(all), n) =~= db::first_texts(rows));
    let r = lemma_history(
        state,
        call,
        1,
        user.id,
        rows,
        0,
        all.len() > n,
        Seq::empty(),
    );
    assert(rows.skip(0) =~= rows);
    let read = still_there(call, r.0);
    let items = call.steps.last()->Done_0.reply.body->Page_0.items@;
    assert(Seq::<Message>::empty() + r.1 =~= r.1);
    assert forall|k: int| 0 <= k < read.len() implies reads_message(
        call,
        (#[trigger] read[k]).1,
        user.id,
        items[read.len() - 1 - k],
    ) by {
        assert(items[read.len() - 1 - k] == r.1[k]);
    }
    (n, r.0)
}

// ---------------------------------------------------------------------------
// Search
// ---------------------------------------------------------------------------

/// A text holds another one.
pub open spec fn holds(s: Seq<char>, t: Seq<char>) -> bool {
    exists|before: Seq<char>, after: Seq<char>| s == #[trigger] (before + t + after)
}

proof fn lemma_holds(s: Seq<char>, t: Seq<char>)
    ensures
        text::contains_text(s, t) == holds(s, t),
{
    if text::contains_text(s, t) {
        let i = choose|i: int| #[trigger] text::occurs_at(s, t, i);
        let before = s.take(i);
        let after = s.skip(i + t.len());
        assert(s =~= before + t + after);
    }
    if holds(s, t) {
        let (before, after) = choose|before: Seq<char>, after: Seq<char>|
            s == #[trigger] (before + t + after);
        assert(s.subrange(before.len() as int, (before.len() + t.len()) as int) =~= t);
        assert(text::occurs_at(s, t, before.len() as int));
    }
}

/// A search keeps the message of a row: it is still there, the name of its author holds what
/// is asked for, and its channel is on the server that is asked for.
pub open spec fn is_kept(call: Call, server: Option<Uuid>, author: Option<String>, p: Reading) -> bool {
    &&& has_rows(call.events[p.1])
    &&& author matches Some(a) ==> holds(call.events[p.1 + 1]->Rows_0@[0]@[1]@->Text_0, a@)
    &&& server matches Some(sid) ==> has_rows(call.events[p.1 + 3])
        && call.events[p.1 + 3]->Rows_0@[0]@.len() > 0 && call.events[p.1 + 3]->Rows_0@[0]@[0]@
        == id_text(sid)
}

/// Where a server is asked for, the server of the channel of every message that is still
/// there is looked up.
pub open spec fn places_each(call: Call, server: Option<Uuid>, ps: Seq<Reading>) -> bool {
    forall|n: int|
        0 <= n < ps.len() && server is Some && has_rows(call.events[(#[trigger] ps[n]).1]) ==> {
            let t = ps[n].1;
            &&& t + 3 < call.events.len()
            &&& asks(call.steps[t + 3], "SELECT server_id FROM channels WHERE id=?1"@)
            &&& args(call.steps[t + 3]) == seq![
                id_text(read_id(call.events[t]->Rows_0@[0]@[1]@->Text_0)),
            ]
        }
}

proof fn lemma_search(
    state: AppState,
    call: Call,
    i: int,
    me: Uuid,
    filter: SearchFilter,
    rows: Seq<Vec<Value>>,
    at: int,
    found: Seq<Message>,
) -> (r: (Seq<Reading>, Seq<Message>))
    requires
        call.follows(state),
        ends_with(call, 200),
        0 <= i < call.steps.len(),
        0 <= at <= rows.len(),
        db::all_text_rows(rows),
        Searching::reads_on(
            call.steps[i],
            id::hyphenated_text(me.0),
            filter,
            db::first_texts(rows),
            at,
            found,
        ),
    ensures
        r.0.map_values(|p: Reading| p.0) == rows.skip(at),
        asks_for_each(call, r.0, 0),
        places_each(call, filter.server, r.0),
        ({
            let kept = r.0.filter(|p: Reading| is_kept(call, filter.server, filter.author, p));
            &&& r.1.len() == kept.len()
            &&& forall|k: int|
                0 <= k < r.1.len() ==> reads_message(call, kept[k].1, me, #[trigger] r.1[k])
        }),
        call.steps.last()->Done_0.event is None,
        call.steps.last()->Done_0.reply.body matches Body::Messages(v) && v@ == found + r.1,
        forall|k: int| i <= k < call.steps.len() ==> !(#[trigger] call.steps[k]).writes(),
    decreases call.steps.len() - i,
{
    let steps = call.steps;
    let ids = db::first_texts(rows);
    let my = id::hyphenated_text(me.0);
    let pred = |p: Reading| is_kept(call, filter.server, filter.author, p);
    if at >= rows.len() {
        lemma_end(state, call, i);
        let none = Seq::<Reading>::empty();
        lemma_no_pairs(pred);
        assert(none.map_values(|p: Reading| p.0) =~= rows.skip(at));
        assert(found + Seq::<Message>::empty() =~= found);
        (none, Seq::empty())
    } else {
        assert(call.advances(state, i));
        assert(ids[at]@ == rows[at]@[0]@->Text_0);
        let s = steps[i].state()->Searching_0;
        let h0 = s->Reading_hydration;
        let x0 = choose|h: db::Hydrated| #[trigger]
            h0.leads_to(call.events[i], call.draws[i].now, h) && Searching::takes(
                steps[i + 1],
                h,
                my,
                filter,
                ids,
                at,
                found,
            );
        assert(Searching::takes(steps[i + 1], x0, my, filter, ids, at, found));
        if x0 is Broken {
            lemma_end(state, call, i + 1);
        }
        let p = (rows[at], i);
        if x0 is Missing {
            let r = lemma_search(state, call, i + 1, me, filter, rows, at + 1, found);
            let ps = seq![p] + r.0;
            lemma_pairs_front(ps, r.0, p, pred);
            assert(ps.filter(pred) =~= r.0.filter(pred));
            lemma_rows_front(p, r.0, rows, at);
            (ps, r.1)
        } else {
            assert(x0 is Ask);
            assert(call.advances(state, i + 1));
            let h1 = x0->Ask_0;
            let x1 = choose|h: db::Hydrated| #[trigger]
                h1.leads_to(call.events[i + 1], call.draws[i + 1].now, h) && Searching::takes(
                    steps[i + 2],
                    h,
                    my,
                    filter,
                    ids,
                    at,
                    found,
                );
            assert(Searching::takes(steps[i + 2], x1, my, filter, ids, at, found));
            if x1 is Broken {
                lemma_end(state, call, i + 2);
            }
            assert(x1 is Ask);
            assert(call.advances(state, i + 2));
            let h2 = x1->Ask_0;
            let x2 = choose|h: db::Hydrated| #[trigger]
                h2.leads_to(call.events[i + 2], call.draws[i + 2].now, h) && Searching::takes(
                    steps[i + 3],
                    h,
                    my,
                    filter,
                    ids,
                    at,
                    found,
                );
            assert(Searching::takes(steps[i + 3], x2, my, filter, ids, at, found));
            if x2 is Broken {
                lemma_end(state, call, i + 3);
            }
            assert(x2 is Message);
            let m = x2->Message_0;
            lemma_message(
                (h0, h1, h2),
                (call.events[i], call.events[i + 1], call.events[i + 2]),
                (call.draws[i].now, call.draws[i + 1].now, call.draws[i + 2].now),
                (x0->Ask_1, x1->Ask_1),
                m,
            );
            assert(reads_message(call, i, me, m));
            if let Some(a) = filter.author {
                lemma_holds(m.author.name@, a@);
            }
            if filter.server is Some {
                assert(call.advances(state, i + 3));
            }
            let kept = is_kept(call, filter.server, filter.author, p);
            let next: int = if filter.server is Some {
                i + 4
            } else {
                i + 3
            };
            let more = if kept {
                found.push(m)
            } else {
                found
            };
            assert(Searching::reads_on(steps[next], my, filter, ids, at + 1, more));
            let r = lemma_search(state, call, next, me, filter, rows, at + 1, more);
            let ps = seq![p] + r.0;
            lemma_pairs_front(ps, r.0, p, pred);
            lemma_rows_front(p, r.0, rows, at);
            if kept {
                let got = seq![m] + r.1;
                assert(found.push(m) + r.1 =~= found + got);
                assert(ps.filter(pred) =~= seq![p] + r.0.filter(pred));
                assert forall|k: int| 0 <= k < got.len() implies reads_message(
                    call,
                    ps.filter(pred)[k].1,
                    me,
                    #[trigger] got[k],
                ) by {
                    if k > 0 {
                        assert(got[k] == r.1[k - 1]);
                    }
                }
                (ps, got)
            } else {
                assert(ps.filter(pred) =~= r.0.filter(pred));
                (ps, r.1)
            }
        }
    }
}

/// A search reads the message that each row names, and replies with all of them, whole and in
/// the order of the rows, that are still there, that are by an author whose name holds what is
/// asked for, and that are in a channel of the server that is asked for. What is not asked for
/// is not looked at. Nothing is written.
pub proof fn law_a_search_keeps_what_is_asked_for(
    state: AppState,
    user: User,
    token: String,
    q: SearchRequest,
    draw: Draw,
    call: Call,
) -> (ps: Seq<Reading>)
    requires
        call.follows(state),
        state.runs(user, token, Request::Search(q), draw, call.steps[0]),
        ends_with(call, 200),
    ensures
        ({
            let kept = ps.filter(|p: Reading| is_kept(call, q.server_id, q.author, p));
            let f = call.steps.last()->Done_0;
            &&& call.events.len() > 0 && call.events[0] is Rows
            &&& ps.map_values(|p: Reading| p.0) == call.events[0]->Rows_0@
            &&& asks_for_each(call, ps, 0)
            &&& places_each(call, q.server_id, ps)
            &&& f.event is None
            &&& f.reply.body is Messages
            &&& f.reply.body->Messages_0@.len() == kept.len()
            &&& forall|k: int|
                0 <= k < kept.len() ==> reads_message(
                    call,
                    (#[trigger] kept[k]).1,
                    user.id,
                    f.reply.body->Messages_0@[k],
                )
            &&& forall|k: int|
                0 <= k < call.steps.len() ==> !(#[trigger] call.steps[k]).writes()
        }),
{
    if call.steps[0] is Done {
        lemma_end(state, call, 0);
    }
    assert(call.advances(state, 0));
    if call.steps[1] is Done {
        lemma_end(state, call, 1);
    }
    let rows = call.events[0]->Rows_0@;
    let filter = SearchFilter { server: q.server_id, author: q.author };
    let r = lemma_search(state, call, 1, user.id, filter, rows, 0, Seq::empty());
    assert(rows.skip(0) =~= rows);
    assert(Seq::<Message>::empty() + r.1 =~= r.1);
    let kept = r.0.filter(|p: Reading| is_kept(call, q.server_id, q.author, p));
    assert forall|k: int| 0 <= k < kept.len() implies reads_message(
        call,
        (#[trigger] kept[k]).1,
        user.id,
        call.steps.last()->Done_0.reply.body->Messages_0@[k],
    ) by {
        assert(r.1[k] == call.steps.last()->Done_0.reply.body->Messages_0@[k]);
    }
    r.0
}

// ---------------------------------------------------------------------------
// Notifications
// ---------------------------------------------------------------------------

/// What the row of a notification says: `id, channel_id, message_id, kind, created_at, read`.
pub open spec fn tells_notification(row: Seq<Value>, n: Notification) -> bool {
    &&& row.len() >= 6
    &&& row[0]@ is Text && n.id == read_id(row[0]@->Text_0)
    &&& row[1]@ is Text && n.channel_id == read_id(row[1]@->Text_0)
    &&& n.kind == (if row[3]@ == ValueView::Text("reply"@) {
        NotificationKind::Reply
    } else if row[3]@ == ValueView::Text("direct"@) {
        NotificationKind::Direct
    } else {
        NotificationKind::Mention
    })
    &&& is_time(n.created_at, row[4]@)
    &&& row[5]@ is Int && n.read == (row[5]@->Int_0 != 0)
}

proof fn lemma_notifications(
    state: AppState,
    call: Call,
    i: int,
    me: Uuid,
    rows: Seq<Vec<Value>>,
    at: int,
    found: Seq<Notification>,
) -> (r: (Seq<Reading>, Seq<Notification>))
    requires
        call.follows(state),
        ends_with(call, 200),
        0 <= i < call.steps.len(),
        0 <= at <= rows.len(),
        messages::all_notification_rows(rows),
        Notifying::reads_on(
            call.steps[i],
            id::hyphenated_text(me.0),
            messages::notification_rows(rows),
            at,
            found,
        ),
    ensures
        r.0.map_values(|p: Reading| p.0) == rows.skip(at),
        asks_for_each(call, r.0, 2),
        r.1.len() == still_there(call, r.0).len(),
        forall|k: int|
            0 <= k < r.1.len() ==> reads_message(
                call,
                still_there(call, r.0)[k].1,
                me,
                (#[trigger] r.1[k]).message,
            ) && tells_notification(still_there(call, r.0)[k].0@, r.1[k]),
        call.steps.last()->Done_0.event is None,
        call.steps.last()->Done_0.reply.body matches Body::Notifications(v) && v@ == found + r.1,
        forall|k: int| i <= k < call.steps.len() ==> !(#[trigger] call.steps[k]).writes(),
    decreases call.steps.len() - i,
{
    let steps = call.steps;
    let all = messages::notification_rows(rows);
    let my = id::hyphenated_text(me.0);
    let pred = |p: Reading| has_rows(call.events[p.1]);
    if at >= rows.len() {
        lemma_end(state, call, i);
        let none = Seq::<Reading>::empty();
        lemma_no_pairs(pred);
        assert(none.map_values(|p: Reading| p.0) =~= rows.skip(at));
        assert(found + Seq::<Notification>::empty() =~= found);
        (none, Seq::empty())
    } else {
        assert(call.advances(state, i));
        assert(messages::has_notification_cells(rows[at]@));
        assert(all[at] == messages::notification_row(rows[at]@));
        assert(all[at].message_id@ == rows[at]@[2]@->Text_0);
        let s = steps[i].state()->Notifying_0;
        let h0 = s->Reading_hydration;
        let x0 = choose|h: db::Hydrated| #[trigger]
            h0.leads_to(call.events[i], call.draws[i].now, h) && Notifying::takes(
                steps[i + 1],
                h,
                my,
                all,
                at,
                found,
                call.draws[i].now,
            );
        assert(Notifying::takes(steps[i + 1], x0, my, all, at, found, call.draws[i].now));
        if x0 is Broken {
            lemma_end(state, call, i + 1);
        }
        let p = (rows[at], i);
        if x0 is Missing {
            let r = lemma_notifications(state, call, i + 1, me, rows, at + 1, found);
            let ps = seq![p] + r.0;
            lemma_pairs_front(ps, r.0, p, pred);
            assert(still_there(call, ps) =~= still_there(call, r.0));
            lemma_rows_front(p, r.0, rows, at);
            (ps, r.1)
        } else {
            assert(x0 is Ask);
            assert(call.advances(state, i + 1));
            let h1 = x0->Ask_0;
            let x1 = choose|h: db::Hydrated| #[trigger]
                h1.leads_to(call.events[i + 1], call.draws[i + 1].now, h) && Notifying::takes(
                    steps[i + 2],
                    h,
                    my,
                    all,
                    at,
                    found,
                    call.draws[i + 1].now,
                );
            assert(Notifying::takes(steps[i + 2], x1, my, all, at, found, call.draws[i + 1].now));
            if x1 is Broken {
                lemma_end(state, call, i + 2);
            }
            assert(x1 is Ask);
            assert(call.advances(state, i + 2));
            let h2 = x1->Ask_0;
            let x2 = choose|h: db::Hydrated| #[trigger]
                h2.leads_to(call.events[i + 2], call.draws[i + 2].now, h) && Notifying::takes(
                    steps[i + 3],
                    h,
                    my,
                    all,
                    at,
                    found,
                    call.draws[i + 2].now,
                );
            assert(Notifying::takes(steps[i + 3], x2, my, all, at, found, call.draws[i + 2].now));
            if x2 is Broken {
                lemma_end(state, call, i + 3);
            }
            assert(x2 is Message);
            let m = x2->Message_0;
            lemma_message(
                (h0, h1, h2),
                (call.events[i], call.events[i + 1], call.events[i + 2]),
                (call.draws[i].now, call.draws[i + 1].now, call.draws[i + 2].now),
                (x0->Ask_1, x1->Ask_1),
                m,
            );
            assert(reads_message(call, i, me, m));
            let n = choose|n: Notification| #[trigger]
                messages::is_notification(all[at], m, call.draws[i + 2].now, n)
                    && Notifying::reads_on(steps[i + 3], my, all, at + 1, found.push(n));
            assert(messages::is_notification(all[at], m, call.draws[i + 2].now, n));
            assert(tells_notification(rows[at]@, n));
            let r = lemma_notifications(state, call, i + 3, me, rows, at + 1, found.push(n));
            let ps = seq![p] + r.0;
            let got = seq![n] + r.1;
            lemma_pairs_front(ps, r.0, p, pred);
            assert(still_there(call, ps) =~= seq![p] + still_there(call, r.0));
            lemma_rows_front(p, r.0, rows, at);
            assert(found.push(n) + r.1 =~= found + got);
            assert forall|k: int| 0 <= k < got.len() implies reads_message(
                call,
                still_there(call, ps)[k].1,
                me,
                (#[trigger] got[k]).message,
            ) && tells_notification(still_there(call, ps)[k].0@, got[k]) by {
                if k > 0 {
                    assert(got[k] == r.1[k - 1]);
                }
            }
            (ps, got)
        }
    }
}

/// The inbox of a user holds their latest fifty notifications, the latest first, each with
/// its message as it is now. One whose message is gone is left out, and no other. Nothing is
/// written.
pub proof fn law_the_inbox_is_read_in_order(
    state: AppState,
    user: User,
    token: String,
    draw: Draw,
    call: Call,
) -> (ps: Seq<Reading>)
    requires
        call.follows(state),
        state.runs(user, token, Request::Notifications, draw, call.steps[0]),
        ends_with(call, 200),
    ensures
        ({
            let read = ps.filter(|p: Reading| has_rows(call.events[p.1]));
            let f = call.steps.last()->Done_0;
            &&& asks(
                call.steps[0],
                "SELECT id, channel_id, message_id, kind, created_at, read FROM notifications WHERE user_id=?1 ORDER BY created_at DESC LIMIT 50"@,
            )
            &&& args(call.steps[0]) == seq![id_text(user.id)]
            &&& call.events.len() > 0 && call.events[0] is Rows
            &&& ps.map_values(|p: Reading| p.0) == call.events[0]->Rows_0@
            &&& asks_for_each(call, ps, 2)
            &&& f.event is None
            &&& f.reply.body is Notifications
            &&& f.reply.body->Notifications_0@.len() == read.len()
            &&& forall|k: int|
                0 <= k < read.len() ==> reads_message(
                    call,
                    (#[trigger] read[k]).1,
                    user.id,
                    f.reply.body->Notifications_0@[k].message,
                ) && tells_notification(read[k].0@, f.reply.body->Notifications_0@[k])
            &&& forall|k: int|
                0 <= k < call.steps.len() ==> !(#[trigger] call.steps[k]).writes()
        }),
{
    if call.steps[0] is Done {
        lemma_end(state, call, 0);
    }
    assert(call.advances(state, 0));
    if call.steps[1] is Done {
        lemma_end(state, call, 1);
    }
    let rows = call.events[0]->Rows_0@;
    let r = lemma_notifications(state, call, 1, user.id, rows, 0, Seq::empty());
    assert(rows.skip(0) =~= rows);
    assert(Seq::<Notification>::empty() + r.1 =~= r.1);
    let read = still_there(call, r.0);
    assert forall|k: int| 0 <= k < read.len() implies reads_message(
        call,
        (#[trigger] read[k]).1,
        user.id,
        call.steps.last()->Done_0.reply.body->Notifications_0@[k].message,
    ) && tells_notification(
        read[k].0@,
        call.steps.last()->Done_0.reply.body->Notifications_0@[k],
    ) by {
        assert(r.1[k] == call.steps.last()->Done_0.reply.body->Notifications_0@[k]);
    }
    r.0
}

/// A stored time that cannot be read is taken for the present.
pub proof fn law_unreadable_times_are_now(t: Timestamp, s: Seq<char>, now: Timestamp)
    requires
        db::reads_as(t, s, now),
    ensures
        time::parsed_time(s) is None ==> t == now,
        time::parsed_time(s) matches Some(p) ==> t.spec_secs() == p.0 && t.spec_nanos() == p.1,
{
}

} // verus!

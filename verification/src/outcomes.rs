//! What whole requests do to the tables, and what they reply, in terms of what was asked and
//! of the rows that came back.

use crate::accounts::Register;
use crate::calls::{read_id, sends, Call};
use crate::db;
use crate::db::{Value, ValueView};
use crate::exchange::{Action, Body, Draw, Event, Stage, Step};
use crate::id;
use crate::id::Uuid;
use crate::messages;
use crate::messages::{Named, Sending};
use crate::protocol::{
    Message, RegisterRequest, SearchRequest, SendMessageRequest, User, WsEvent,
};
use crate::routes::{AppState, Request};
use crate::text;
use vstd::prelude::*;

verus! {

// ---------------------------------------------------------------------------
// Statements of a call
// ---------------------------------------------------------------------------

/// A step runs a statement without rows.
pub open spec fn runs(r: Step, sql: Seq<char>) -> bool {
    r matches Step::Ask(_, Action::Execute(s)) && s.sql@ == sql
}

/// A step asks for the rows of a statement.
pub open spec fn asks(r: Step, sql: Seq<char>) -> bool {
    r matches Step::Ask(_, Action::Query(s)) && s.sql@ == sql
}

/// The values for the parameters of a step's statement.
pub open spec fn args(r: Step) -> Seq<ValueView> {
    match r {
        Step::Ask(_, Action::Execute(s)) => db::value_views(s.args@),
        Step::Ask(_, Action::Query(s)) => db::value_views(s.args@),
        _ => Seq::empty(),
    }
}

/// With which values some steps run a statement, in their order.
pub open spec fn all_runs(steps: Seq<Step>, sql: Seq<char>) -> Seq<Seq<ValueView>> {
    steps.filter(|r: Step| runs(r, sql)).map_values(|r: Step| args(r))
}

/// The text of an identifier, as a value.
pub open spec fn id_text(u: Uuid) -> ValueView {
    ValueView::Text(id::hyphenated_text(u.0))
}

/// The text of an identifier that may be missing, as a value.
pub open spec fn optional_id_text(u: Option<Uuid>) -> ValueView {
    match u {
        Some(x) => id_text(x),
        None => ValueView::Null,
    }
}

proof fn lemma_filter_front<A>(s: Seq<A>, i: int, pred: spec_fn(A) -> bool)
    requires
        0 <= i < s.len(),
    ensures
        s.skip(i).filter(pred) == (if pred(s[i]) {
            seq![s[i]]
        } else {
            Seq::empty()
        }) + s.skip(i + 1).filter(pred),
{
    let one = seq![s[i]];
    assert(s.skip(i) =~= one + s.skip(i + 1));
    Seq::filter_distributes_over_add(one, s.skip(i + 1), pred);
    reveal(Seq::filter);
    assert(one.drop_last() =~= Seq::<A>::empty());
    assert(one.drop_last().filter(pred) =~= Seq::<A>::empty());
    if pred(s[i]) {
        assert(one.filter(pred) =~= one);
    } else {
        assert(one.filter(pred) =~= Seq::<A>::empty());
    }
}

proof fn lemma_filter_end<A>(s: Seq<A>, pred: spec_fn(A) -> bool)
    ensures
        s.skip(s.len() as int).filter(pred) == Seq::<A>::empty(),
{
    reveal(Seq::filter);
    assert(s.skip(s.len() as int) =~= Seq::<A>::empty());
}

proof fn lemma_runs_front(steps: Seq<Step>, sql: Seq<char>, i: int)
    requires
        0 <= i < steps.len(),
    ensures
        all_runs(steps.skip(i), sql) == (if runs(steps[i], sql) {
            seq![args(steps[i])]
        } else {
            Seq::empty()
        }) + all_runs(steps.skip(i + 1), sql),
{
    lemma_filter_front(steps, i, |r: Step| runs(r, sql));
    assert(all_runs(steps.skip(i), sql) =~= (if runs(steps[i], sql) {
        seq![args(steps[i])]
    } else {
        Seq::empty()
    }) + all_runs(steps.skip(i + 1), sql));
}

proof fn lemma_runs_end(steps: Seq<Step>, sql: Seq<char>)
    ensures
        all_runs(steps.skip(steps.len() as int), sql) == Seq::<Seq<ValueView>>::empty(),
{
    lemma_filter_end(steps, |r: Step| runs(r, sql));
    assert(all_runs(steps.skip(steps.len() as int), sql) =~= Seq::<Seq<ValueView>>::empty());
}

/// Steps that do not run a statement can be left out.
proof fn lemma_no_runs(steps: Seq<Step>, sql: Seq<char>, i: int, j: int)
    requires
        0 <= i <= j <= steps.len(),
        forall|k: int| i <= k < j ==> !runs(#[trigger] steps[k], sql),
    ensures
        all_runs(steps.skip(i), sql) == all_runs(steps.skip(j), sql),
    decreases j - i,
{
    if i < j {
        lemma_runs_front(steps, sql, i);
        lemma_no_runs(steps, sql, i + 1, j);
        assert(all_runs(steps.skip(i), sql) =~= all_runs(steps.skip(i + 1), sql));
    }
}

// ---------------------------------------------------------------------------
// Sending
// ---------------------------------------------------------------------------

/// The user of a row `id, name` is not the author, and the content says their name behind an
/// at sign.
pub open spec fn is_named(row: Seq<Value>, author: Uuid, content: Seq<char>) -> bool {
    &&& row[0]@ != id_text(author)
    &&& exists|before: Seq<char>, after: Seq<char>|
        content == #[trigger] (before + (seq!['@'] + row[1]@->Text_0) + after)
}

proof fn lemma_named(row: Vec<Value>, m: Message, user: Named)
    requires
        db::text_at(row@, 0) == Some(user.id),
        db::text_at(row@, 1) == Some(user.name),
    ensures
        is_named(row@, m.author.id, m.content@) == messages::mentions(m, user),
{
    reveal_strlit("@");
    let sign = seq!['@'] + user.name@;
    assert("@"@ + user.name@ =~= sign);
    let content = m.content@;
    if text::contains_text(content, sign) {
        let i = choose|i: int| #[trigger] text::occurs_at(content, sign, i);
        let before = content.take(i);
        let after = content.skip(i + sign.len());
        assert(content =~= before + sign + after);
    }
    if is_named(row@, m.author.id, content) {
        let (before, after) = choose|before: Seq<char>, after: Seq<char>|
            content == #[trigger] (before + sign + after);
        assert(content.subrange(before.len() as int, (before.len() + sign.len()) as int) =~= sign);
        assert(text::occurs_at(content, sign, before.len() as int));
    }
}

/// A call ends with a status.
pub open spec fn ends_with(call: Call, status: u16) -> bool {
    call.steps.last() matches Step::Done(f) && f.reply.status == status
}

/// The users that a call notifies, each with the channel and the message.
pub open spec fn notices(steps: Seq<Step>) -> Seq<(ValueView, ValueView, ValueView)> {
    all_runs(
        steps,
        "INSERT INTO notifications (id, user_id, channel_id, message_id, kind, created_at, read) VALUES (?1,?2,?3,?4,'mention',?5,0)"@,
    ).map_values(|a: Seq<ValueView>| (a[1], a[2], a[3]))
}

/// The users of some rows whom a message names, each with its channel and identifier.
pub open spec fn named(rows: Seq<Vec<Value>>, m: Message) -> Seq<(ValueView, ValueView, ValueView)> {
    rows.filter(|row: Vec<Value>| is_named(row@, m.author.id, m.content@)).map_values(
        |row: Vec<Value>| (row@[0]@, id_text(m.channel_id), id_text(m.id)),
    )
}

proof fn lemma_tells(
    state: AppState,
    call: Call,
    i: int,
    m: Message,
    rows: Seq<Vec<Value>>,
    at: int,
    draw: Draw,
)
    requires
        call.follows(state),
        ends_with(call, 201),
        0 < i < call.steps.len(),
        draw == call.draws[i - 1],
        0 <= at <= rows.len(),
        messages::all_named_rows(rows),
        Sending::tells_on(call.steps[i], m, messages::named_of(rows), at, draw),
    ensures
        notices(call.steps.skip(i)) == named(rows.skip(at), m),
        messages::announces_new(call.steps.last(), m),
        forall|k: int|
            i <= k < call.steps.len() && (#[trigger] call.steps[k]).writes() ==> runs(
                call.steps[k],
                "INSERT INTO notifications (id, user_id, channel_id, message_id, kind, created_at, read) VALUES (?1,?2,?3,?4,'mention',?5,0)"@,
            ) && args(call.steps[k]).len() == 5 && args(call.steps[k])[0] == id_text(
                call.draws[k - 1].id,
            ) && args(call.steps[k])[4] == ValueView::Text(call.draws[k - 1].stamp@),
    decreases call.steps.len() - i, rows.len() - at,
{
    let sql = "INSERT INTO notifications (id, user_id, channel_id, message_id, kind, created_at, read) VALUES (?1,?2,?3,?4,'mention',?5,0)"@;
    let users = messages::named_of(rows);
    let pred = |row: Vec<Value>| is_named(row@, m.author.id, m.content@);
    let steps = call.steps;
    if at < rows.len() {
        lemma_named(rows[at], m, users[at]);
        lemma_filter_front(rows, at, pred);
        if messages::mentions(m, users[at]) {
            assert(runs(steps[i], sql));
            assert(i < call.events.len());
            assert(call.advances(state, i));
            lemma_tells(state, call, i + 1, m, rows, at + 1, call.draws[i]);
            lemma_runs_front(steps, sql, i);
            let told = (rows[at]@[0]@, id_text(m.channel_id), id_text(m.id));
            assert(args(steps[i])[1] == rows[at]@[0]@);
            assert(args(steps[i])[2] == id_text(m.channel_id));
            assert(args(steps[i])[3] == id_text(m.id));
            assert(notices(steps.skip(i)) =~= seq![told] + notices(steps.skip(i + 1)));
            assert(named(rows.skip(at), m) =~= seq![told] + named(rows.skip(at + 1), m));
        } else {
            lemma_tells(state, call, i, m, rows, at + 1, draw);
            assert(named(rows.skip(at), m) =~= named(rows.skip(at + 1), m));
        }
    } else {
        assert(messages::announces_new(steps[i], m));
        if i < call.events.len() {
            assert(call.advances(state, i));
        }
        lemma_runs_front(steps, sql, i);
        lemma_runs_end(steps, sql);
        lemma_filter_end(rows, pred);
        assert(notices(steps.skip(i)) =~= named(rows.skip(at), m));
    }
}

/// A sending that has not stored anything yet.
spec fn is_before_storing(r: Step, me: Uuid, channel: Uuid, req: SendMessageRequest) -> bool {
    r matches Step::Ask(stage, a) && a is Query && (stage == Stage::Sending(
        Sending::Looking { me, channel, req },
    ) || (stage matches Stage::Sending(Sending::Recalling { me: m, channel: c, req: q, .. }) && m
        == me && c == channel && q == req))
}

proof fn lemma_until_stored(
    state: AppState,
    call: Call,
    i: int,
    me: Uuid,
    channel: Uuid,
    req: SendMessageRequest,
) -> (r: (int, Draw))
    requires
        call.follows(state),
        ends_with(call, 201),
        0 <= i < call.steps.len(),
        is_before_storing(call.steps[i], me, channel, req),
    ensures
        i <= r.0 < call.steps.len(),
        messages::stores_message(call.steps[r.0], me, channel, req, r.1),
        call.draws.contains(r.1),
        forall|k: int| i <= k < r.0 ==> !(#[trigger] call.steps[k]).writes(),
    decreases call.steps.len() - i,
{
    let steps = call.steps;
    assert(i < call.events.len());
    assert(call.advances(state, i));
    match steps[i].state() {
        Stage::Sending(Sending::Recalling { me: m, channel: c, req: q, hydration }) => {
            let h = choose|h: db::Hydrated| #[trigger]
                hydration.leads_to(call.events[i], call.draws[i].now, h) && Sending::recalls(
                    steps[i + 1],
                    h,
                    m,
                    c,
                    q,
                    call.draws[i],
                );
            assert(Sending::recalls(steps[i + 1], h, m, c, q, call.draws[i]));
            if h is Message || h is Broken {
                if i + 1 < call.events.len() {
                    assert(call.advances(state, i + 1));
                }
            }
        },
        _ => {
            if steps[i + 1] is Done && i + 1 < call.events.len() {
                assert(call.advances(state, i + 1));
            }
        },
    }
    if messages::stores_message(steps[i + 1], me, channel, req, call.draws[i]) {
        assert(call.draws.contains(call.draws[i]));
        (i + 1, call.draws[i])
    } else {
        lemma_until_stored(state, call, i + 1, me, channel, req)
    }
}

/// A sending that has stored the message and does not know the users yet.
spec fn is_rereading(r: Step) -> bool {
    r matches Step::Ask(Stage::Sending(s), a) && a is Query && s is Rereading
}

proof fn lemma_until_named(state: AppState, call: Call, i: int) -> (k: int)
    requires
        call.follows(state),
        ends_with(call, 201),
        0 <= i < call.steps.len(),
        is_rereading(call.steps[i]),
    ensures
        i < k < call.events.len(),
        asks(call.steps[k], "SELECT id, name FROM users"@),
        args(call.steps[k]).len() == 0,
        call.steps[k].state() matches Stage::Sending(Sending::Naming { .. }),
        forall|j: int| i <= j <= k ==> !(#[trigger] call.steps[j]).writes(),
    decreases call.steps.len() - i,
{
    let steps = call.steps;
    assert(i < call.events.len());
    assert(call.advances(state, i));
    let hydration = steps[i].state()->Sending_0->Rereading_hydration;
    let h = choose|h: db::Hydrated| #[trigger]
        hydration.leads_to(call.events[i], call.draws[i].now, h) && Sending::rereads(
            steps[i + 1],
            h,
        );
    assert(Sending::rereads(steps[i + 1], h));
    if h is Missing || h is Broken {
        if i + 1 < call.events.len() {
            assert(call.advances(state, i + 1));
        }
    }
    if h is Message {
        assert(i + 1 < call.events.len());
        i + 1
    } else {
        lemma_until_named(state, call, i + 1)
    }
}

/// A call that sends a message and ends with status 201 asks once for the users, and stores
/// one notification for every one of them but the author whose name stands behind an at sign
/// in the content, in the order of the rows, with the identifiers of the channel and of the
/// message that it replies with. Nobody else is notified.
///
/// It stores one message: in the channel, by the one who asks, with the content, the message
/// it answers and the key of the request. What it replies with is the message with the
/// identifier under which that one was stored, everyone who listens is told of the same, and
/// nothing else is written. What is stored has a fresh identifier and the time of its storing.
pub proof fn law_who_is_mentioned_is_notified(
    state: AppState,
    user: User,
    token: String,
    channel: Uuid,
    req: SendMessageRequest,
    draw: Draw,
    call: Call,
) -> (k: int)
    requires
        call.follows(state),
        call.finds_what_it_asks_for(),
        state.runs(user, token, Request::Send(channel, req), draw, call.steps[0]),
        ends_with(call, 201),
    ensures
        call.steps.last()->Done_0.reply.body is Message,
        ({
            let m = call.steps.last()->Done_0.reply.body->Message_0;
            let stored = all_runs(
                call.steps,
                "INSERT INTO messages (id, channel_id, author_id, content, created_at, reply_to, nonce) VALUES (?1,?2,?3,?4,?5,?6,?7)"@,
            );
            &&& 0 <= k < call.events.len()
            &&& asks(call.steps[k], "SELECT id, name FROM users"@)
            &&& args(call.steps[k]).len() == 0
            &&& call.events[k] is Rows
            &&& all_runs(
                call.steps,
                "INSERT INTO notifications (id, user_id, channel_id, message_id, kind, created_at, read) VALUES (?1,?2,?3,?4,'mention',?5,0)"@,
            ).map_values(|a: Seq<ValueView>| (a[1], a[2], a[3])) == call.events[k]->Rows_0@.filter(
                |row: Vec<Value>| is_named(row@, m.author.id, m.content@),
            ).map_values(|row: Vec<Value>| (row@[0]@, id_text(m.channel_id), id_text(m.id)))
            &&& forall|i: int|
                0 <= i < call.steps.len() && runs(
                    #[trigger] call.steps[i],
                    "INSERT INTO notifications (id, user_id, channel_id, message_id, kind, created_at, read) VALUES (?1,?2,?3,?4,'mention',?5,0)"@,
                ) ==> 0 < i && args(call.steps[i]).len() == 5 && args(call.steps[i])[0] == id_text(
                    call.draws[i - 1].id,
                ) && args(call.steps[i])[4] == ValueView::Text(call.draws[i - 1].stamp@)
            &&& exists|d: Draw|
                (d == draw || call.draws.contains(d)) && stored[0][0] == #[trigger] id_text(d.id)
                    && stored[0][4] == ValueView::Text(d.stamp@)
            &&& stored.len() == 1
            &&& stored[0].len() == 7
            &&& stored[0][0] is Text && m.id == read_id(stored[0][0]->Text_0)
            &&& stored[0][1] == id_text(channel)
            &&& stored[0][2] == id_text(user.id)
            &&& stored[0][3] == ValueView::Text(req.content@)
            &&& stored[0][5] == optional_id_text(req.reply_to)
            &&& stored[0][6] == optional_id_text(req.nonce)
            &&& call.steps.last()->Done_0.event matches Some(
                WsEvent::MessageCreated { message: told },
            ) && told.id == m.id && told.content@ == m.content@ && told.channel_id == m.channel_id
                && told.author == m.author && told.created_at == m.created_at && told.reply_to
                == m.reply_to && told.reactions@ == m.reactions@
            &&& forall|i: int|
                0 <= i < call.steps.len() && (#[trigger] call.steps[i]).writes() ==> runs(
                    call.steps[i],
                    "INSERT INTO messages (id, channel_id, author_id, content, created_at, reply_to, nonce) VALUES (?1,?2,?3,?4,?5,?6,?7)"@,
                ) || runs(
                    call.steps[i],
                    "INSERT INTO notifications (id, user_id, channel_id, message_id, kind, created_at, read) VALUES (?1,?2,?3,?4,'mention',?5,0)"@,
                )
        }),
{
    let steps = call.steps;
    let notify = "INSERT INTO notifications (id, user_id, channel_id, message_id, kind, created_at, read) VALUES (?1,?2,?3,?4,'mention',?5,0)"@;
    let store = "INSERT INTO messages (id, channel_id, author_id, content, created_at, reply_to, nonce) VALUES (?1,?2,?3,?4,?5,?6,?7)"@;
    reveal_strlit(
        "INSERT INTO notifications (id, user_id, channel_id, message_id, kind, created_at, read) VALUES (?1,?2,?3,?4,'mention',?5,0)",
    );
    reveal_strlit(
        "INSERT INTO messages (id, channel_id, author_id, content, created_at, reply_to, nonce) VALUES (?1,?2,?3,?4,?5,?6,?7)",
    );
    assert(notify[12] == 'n' && store[12] == 'm');
    if steps[0] is Done && 0 < call.events.len() {
        assert(call.advances(state, 0));
    }
    let (j, d) = if req.nonce is None {
        (0int, draw)
    } else {
        lemma_until_stored(state, call, 0, user.id, channel, req)
    };
    assert(messages::stores_message(steps[j], user.id, channel, req, d));
    assert(j < call.events.len());
    assert(call.advances(state, j));
    if steps[j + 1] is Done && j + 1 < call.events.len() {
        assert(call.advances(state, j + 1));
    }
    assert(is_rereading(steps[j + 1]));
    let k = lemma_until_named(state, call, j + 1);
    assert(call.advances(state, k));
    if steps[k + 1] is Done && k + 1 < call.events.len() {
        assert(call.advances(state, k + 1));
    }
    let message = steps[k].state()->Sending_0->Naming_message;
    let rows = call.events[k]->Rows_0@;
    lemma_tells(state, call, k + 1, message, rows, 0, call.draws[k]);
    assert(rows.skip(0) =~= rows);
    // The identifier.
    let name = id::hyphenated_text(d.id.0);
    assert(sends(steps[j], name));
    crate::calls::lemma_sends_to_the_end(state, call, name, j, call.events.len() as int);
    // The statements.
    assert(steps.skip(0) =~= steps);
    lemma_no_runs(steps, notify, 0, k + 1);
    lemma_no_runs(steps, store, 0, j);
    lemma_runs_front(steps, store, j);
    lemma_no_runs(steps, store, j + 1, steps.len() as int);
    lemma_runs_end(steps, store);
    assert(all_runs(steps, store) =~= seq![args(steps[j])]);
    assert(args(steps[j])[0] == id_text(d.id));
    k
}

// ---------------------------------------------------------------------------
// Registration
// ---------------------------------------------------------------------------

/// The rows of servers, each with the account that joins it.
pub open spec fn joined_by(rows: Seq<Vec<Value>>, account: ValueView) -> Seq<Seq<ValueView>> {
    rows.map_values(|row: Vec<Value>| seq![row@[0]@, account])
}

proof fn lemma_joins(
    state: AppState,
    call: Call,
    i: int,
    id: Uuid,
    token: String,
    rows: Seq<Vec<Value>>,
    at: int,
)
    requires
        call.follows(state),
        ends_with(call, 201),
        0 <= i < call.steps.len(),
        0 <= at <= rows.len(),
        db::all_text_rows(rows),
        Register::joins(call.steps[i], id, token, db::first_texts(rows), at),
    ensures
        all_runs(
            call.steps.skip(i),
            "INSERT OR IGNORE INTO server_members (server_id, user_id) VALUES (?1,?2)"@,
        ) == joined_by(rows.skip(at), id_text(id)),
        forall|k: int|
            i <= k < call.steps.len() && (#[trigger] call.steps[k]).writes() ==> runs(
                call.steps[k],
                "INSERT OR IGNORE INTO server_members (server_id, user_id) VALUES (?1,?2)"@,
            ),
        i + 2 <= call.steps.len(),
        asks(
            call.steps[call.steps.len() - 2],
            "SELECT id, name, display_name, bot, created_at, avatar FROM users WHERE id=?1"@,
        ),
        args(call.steps[call.steps.len() - 2]) == seq![id_text(id)],
        call.events.last() matches Event::Rows(users) && users@.len() > 0
            && db::has_stored_user_cells(users@[0]@) && (call.steps.last() matches Step::Done(f)
            && f.event is None && (f.reply.body matches Body::Auth(a) && a.token == token
            && db::is_stored_user(users@[0]@, call.draws.last().now, a.user))),
    decreases rows.len() - at,
{
    let sql = "INSERT OR IGNORE INTO server_members (server_id, user_id) VALUES (?1,?2)"@;
    let steps = call.steps;
    assert(i < call.events.len());
    assert(call.advances(state, i));
    lemma_runs_front(steps, sql, i);
    if at < rows.len() {
        lemma_joins(state, call, i + 1, id, token, rows, at + 1);
        assert(args(steps[i])[0] == rows[at]@[0]@);
        assert(args(steps[i]) =~= seq![rows[at]@[0]@, id_text(id)]);
        assert(joined_by(rows.skip(at), id_text(id)) =~= seq![args(steps[i])] + joined_by(
            rows.skip(at + 1),
            id_text(id),
        ));
    } else {
        if i + 1 < call.events.len() {
            assert(call.advances(state, i + 1));
        }
        lemma_runs_front(steps, sql, i + 1);
        lemma_runs_end(steps, sql);
        assert(all_runs(steps.skip(i), sql) =~= joined_by(rows.skip(at), id_text(id)));
    }
}

/// A registration that ends with status 201 stores one account, with the name and the
/// display name of the request, and one token of it. It asks for all servers, and the new
/// account joins every one of them, in the order of the rows. Nothing else is written. The
/// reply is that token, with what is stored of the account then.
pub proof fn law_a_new_account_joins_every_server(
    state: AppState,
    authorization: Option<String>,
    req: RegisterRequest,
    draw: Draw,
    call: Call,
) -> (k: int)
    requires
        call.follows(state),
        state.begins(authorization, Request::Register(req), draw, call.steps[0]),
        ends_with(call, 201),
    ensures
        call.steps.last()->Done_0.event is None,
        call.steps.last()->Done_0.reply.body is Auth,
        ({
            let a = call.steps.last()->Done_0.reply.body->Auth_0;
            let users = all_runs(
                call.steps,
                "INSERT INTO users (id, name, display_name, password_hash, bot, created_at) VALUES (?1,?2,?3,?4,0,?5)"@,
            );
            let tokens = all_runs(
                call.steps,
                "INSERT INTO tokens (token, user_id, created_at) VALUES (?1,?2,?3)"@,
            );
            &&& 0 <= k < call.events.len()
            &&& asks(call.steps[k], "SELECT id FROM servers"@)
            &&& args(call.steps[k]).len() == 0
            &&& call.events[k] is Rows
            &&& users.len() == 1 && users[0].len() == 5
            &&& users[0][1] == ValueView::Text(req.name@)
            &&& users[0][2] == (match req.display_name {
                Some(d) => ValueView::Text(d@),
                None => ValueView::Null,
            })
            &&& users[0][0] == id_text(call.draws[0].id)
            &&& users[0][3] is Text
            &&& users[0][4] == ValueView::Text(call.draws[0].stamp@)
            &&& tokens.len() == 1 && tokens[0].len() == 3
            &&& tokens[0][0] == ValueView::Text(a.token@)
            &&& tokens[0][1] == users[0][0]
            &&& tokens[0][2] == ValueView::Text(call.draws[0].stamp@)
            &&& a.token@ == seq!['t', 'm', '_'] + id::simple_text(call.draws[0].second.0)
            &&& all_runs(
                call.steps,
                "INSERT OR IGNORE INTO server_members (server_id, user_id) VALUES (?1,?2)"@,
            ) == call.events[k]->Rows_0@.map_values(
                |row: Vec<Value>| seq![row@[0]@, users[0][0]],
            )
            &&& asks(
                call.steps[call.steps.len() - 2],
                "SELECT id, name, display_name, bot, created_at, avatar FROM users WHERE id=?1"@,
            )
            &&& args(call.steps[call.steps.len() - 2]) == seq![users[0][0]]
            &&& call.events.last() matches Event::Rows(rows) && rows@.len() > 0
                && rows@[0]@[1]@ == ValueView::Text(a.user.name@)
            &&& forall|i: int|
                0 <= i < call.steps.len() && (#[trigger] call.steps[i]).writes() ==> runs(
                    call.steps[i],
                    "INSERT INTO users (id, name, display_name, password_hash, bot, created_at) VALUES (?1,?2,?3,?4,0,?5)"@,
                ) || runs(
                    call.steps[i],
                    "INSERT INTO tokens (token, user_id, created_at) VALUES (?1,?2,?3)"@,
                ) || runs(
                    call.steps[i],
                    "INSERT OR IGNORE INTO server_members (server_id, user_id) VALUES (?1,?2)"@,
                )
        }),
{
    let steps = call.steps;
    let store = "INSERT INTO users (id, name, display_name, password_hash, bot, created_at) VALUES (?1,?2,?3,?4,0,?5)"@;
    let open = "INSERT INTO tokens (token, user_id, created_at) VALUES (?1,?2,?3)"@;
    let join = "INSERT OR IGNORE INTO server_members (server_id, user_id) VALUES (?1,?2)"@;
    reveal_strlit(
        "INSERT INTO users (id, name, display_name, password_hash, bot, created_at) VALUES (?1,?2,?3,?4,0,?5)",
    );
    reveal_strlit("INSERT INTO tokens (token, user_id, created_at) VALUES (?1,?2,?3)");
    reveal_strlit("INSERT OR IGNORE INTO server_members (server_id, user_id) VALUES (?1,?2)");
    assert(store[12] == 'u' && open[12] == 't' && store[7] == 'I' && open[7] == 'I' && join[7]
        == 'O');
    if steps[0] is Done && 0 < call.events.len() {
        assert(call.advances(state, 0));
    }
    assert(0 < call.events.len());
    assert(call.advances(state, 0));
    if steps[1] is Done && 1 < call.events.len() {
        assert(call.advances(state, 1));
    }
    assert(call.advances(state, 1));
    if steps[2] is Done && 2 < call.events.len() {
        assert(call.advances(state, 2));
    }
    assert(call.advances(state, 2));
    if steps[3] is Done && 3 < call.events.len() {
        assert(call.advances(state, 3));
    }
    assert(call.advances(state, 3));
    if steps[4] is Done && 4 < call.events.len() {
        assert(call.advances(state, 4));
    }
    let s = steps[3].state()->Register_0;
    let rows = call.events[3]->Rows_0@;
    lemma_joins(state, call, 4, s->Listing_id, s->Listing_token, rows, 0);
    assert(rows.skip(0) =~= rows);
    assert(steps.skip(0) =~= steps);
    let end = steps.len() as int;
    lemma_runs_end(steps, store);
    lemma_runs_end(steps, open);
    lemma_no_runs(steps, join, 0, 4);
    lemma_no_runs(steps, store, 0, 1);
    lemma_runs_front(steps, store, 1);
    lemma_no_runs(steps, store, 2, end);
    assert(all_runs(steps, store) =~= seq![args(steps[1])]);
    lemma_no_runs(steps, open, 0, 2);
    lemma_runs_front(steps, open, 2);
    lemma_no_runs(steps, open, 3, end);
    assert(all_runs(steps, open) =~= seq![args(steps[2])]);
    let account = args(steps[1])[0];
    assert(account == id_text(s->Listing_id));
    reveal_strlit("tm_");
    assert("tm_"@ =~= seq!['t', 'm', '_']);
    assert(joined_by(rows, account) =~= rows.map_values(
        |row: Vec<Value>| seq![row@[0]@, account],
    ));
    3
}

// ---------------------------------------------------------------------------
// Search
// ---------------------------------------------------------------------------

/// A character, the same for both cases of a letter of ASCII.
pub open spec fn folded(c: char) -> int {
    let n = c as u32;
    if 0x41 <= n <= 0x5a {
        n + 32
    } else {
        n as int
    }
}

/// What `LIKE` matches: `%` stands for any run of characters, `_` for any one of them, and
/// every other character for itself, in either case.
pub open spec fn like(pattern: Seq<char>, s: Seq<char>) -> bool
    decreases pattern.len(), s.len(),
{
    if pattern.len() == 0 {
        s.len() == 0
    } else if pattern[0] == '%' {
        like(pattern.skip(1), s) || (s.len() > 0 && like(pattern, s.skip(1)))
    } else {
        s.len() > 0 && (pattern[0] == '_' || folded(pattern[0]) == folded(s[0])) && like(
            pattern.skip(1),
            s.skip(1),
        )
    }
}

/// A text occurs in another one at a position, in either case.
pub open spec fn stands_at(s: Seq<char>, query: Seq<char>, i: int) -> bool {
    &&& 0 <= i <= s.len() - query.len()
    &&& forall|j: int| 0 <= j < query.len() ==> folded(#[trigger] query[j]) == folded(s[i + j])
}

/// A text in which no character has a meaning of its own in a pattern.
pub open spec fn is_literal(s: Seq<char>) -> bool {
    forall|i: int| 0 <= i < s.len() ==> #[trigger] s[i] != '%' && s[i] != '_'
}

proof fn lemma_like_anything(s: Seq<char>)
    ensures
        like(seq!['%'], s),
    decreases s.len(),
{
    let any = seq!['%'];
    assert(any.skip(1).len() == 0);
    if s.len() > 0 {
        lemma_like_anything(s.skip(1));
    } else {
        assert(like(any.skip(1), s));
    }
}

proof fn lemma_like_start(query: Seq<char>, s: Seq<char>)
    requires
        is_literal(query),
    ensures
        like(query + seq!['%'], s) == stands_at(s, query, 0),
    decreases query.len(),
{
    let p = query + seq!['%'];
    if query.len() == 0 {
        assert(p =~= seq!['%']);
        lemma_like_anything(s);
    } else {
        assert(p[0] == query[0] && p[0] != '%' && p[0] != '_');
        assert(p.skip(1) =~= query.skip(1) + seq!['%']);
        assert forall|i: int| 0 <= i < query.skip(1).len() implies #[trigger] query.skip(1)[i]
            != '%' && query.skip(1)[i] != '_' by {
            assert(query.skip(1)[i] == query[i + 1]);
        }
        if s.len() > 0 {
            lemma_like_start(query.skip(1), s.skip(1));
            if stands_at(s.skip(1), query.skip(1), 0) && folded(query[0]) == folded(s[0]) {
                assert forall|j: int| 0 <= j < query.len() implies folded(#[trigger] query[j])
                    == folded(s[0int + j]) by {
                    if j > 0 {
                        assert(query.skip(1)[j - 1] == query[j]);
                        assert(s.skip(1)[0int + (j - 1)] == s[j]);
                    }
                }
            }
            if stands_at(s, query, 0) {
                assert(folded(query[0]) == folded(s[0int + 0int]));
                assert forall|j: int| 0 <= j < query.skip(1).len() implies folded(
                    #[trigger] query.skip(1)[j],
                ) == folded(s.skip(1)[0int + j]) by {
                    assert(query.skip(1)[j] == query[j + 1]);
                    assert(folded(query[j + 1]) == folded(s[0int + (j + 1)]));
                }
            }
        }
    }
}

proof fn lemma_like_somewhere(query: Seq<char>, s: Seq<char>)
    requires
        is_literal(query),
    ensures
        like(seq!['%'] + (query + seq!['%']), s) == exists|i: int|
            #[trigger] stands_at(s, query, i),
    decreases s.len(),
{
    let p = seq!['%'] + (query + seq!['%']);
    assert(p[0] == '%');
    assert(p.skip(1) =~= query + seq!['%']);
    lemma_like_start(query, s);
    if s.len() > 0 {
        let rest = s.skip(1);
        lemma_like_somewhere(query, rest);
        if exists|i: int| #[trigger] stands_at(rest, query, i) {
            let i = choose|i: int| #[trigger] stands_at(rest, query, i);
            assert forall|j: int| 0 <= j < query.len() implies folded(#[trigger] query[j])
                == folded(s[(i + 1) + j]) by {
                assert(rest[i + j] == s[(i + 1) + j]);
            }
            assert(stands_at(s, query, i + 1));
        }
        if exists|i: int| #[trigger] stands_at(s, query, i) {
            let i = choose|i: int| #[trigger] stands_at(s, query, i);
            if i > 0 {
                assert forall|j: int| 0 <= j < query.len() implies folded(#[trigger] query[j])
                    == folded(rest[(i - 1) + j]) by {
                    assert(rest[(i - 1) + j] == s[i + j]);
                }
                assert(stands_at(rest, query, i - 1));
            }
        }
    } else if exists|i: int| #[trigger] stands_at(s, query, i) {
        let i = choose|i: int| #[trigger] stands_at(s, query, i);
        assert(i == 0);
    }
}

/// What a search for a text without `%` and `_` sends as the pattern matches a content if
/// and only if the text occurs somewhere in it, in either case. In particular it matches
/// whatever holds the text between any two others.
pub proof fn law_a_search_finds_the_text_anywhere(
    state: AppState,
    user: User,
    token: String,
    q: SearchRequest,
    draw: Draw,
    r: Step,
    content: Seq<char>,
    before: Seq<char>,
    after: Seq<char>,
)
    requires
        state.runs(user, token, Request::Search(q), draw, r),
        is_literal(q.query@),
    ensures
        args(r).len() > 0,
        args(r)[0] is Text,
        like(args(r)[0]->Text_0, content) <==> exists|i: int|
            #[trigger] stands_at(content, q.query@, i),
        like(args(r)[0]->Text_0, before + q.query@ + after),
{
    reveal_strlit("%");
    let query = q.query@;
    let p = seq!['%'] + (query + seq!['%']);
    assert("%"@ =~= seq!['%']);
    assert("%"@ + query + "%"@ =~= p);
    lemma_like_somewhere(query, content);
    let s = before + query + after;
    lemma_like_somewhere(query, s);
    assert forall|j: int| 0 <= j < query.len() implies folded(#[trigger] query[j]) == folded(
        s[before.len() as int + j],
    ) by {
        assert(s[before.len() as int + j] == query[j]);
    }
    assert(stands_at(s, query, before.len() as int));
}

/// A search asks for the latest messages first, in the channel that is named where one is,
/// and for at most as many as are asked for: 25 where no number is given, never more than
/// 100, and at least one.
pub proof fn law_a_search_asks_for_the_latest(
    state: AppState,
    user: User,
    token: String,
    q: SearchRequest,
    draw: Draw,
    r: Step,
) -> (n: nat)
    requires
        state.runs(user, token, Request::Search(q), draw, r),
    ensures
        q.limit is None ==> n == 25,
        q.limit matches Some(l) ==> (1 <= l <= 100 ==> n == l) && (l == 0 ==> n == 1) && (l > 100
            ==> n == 100),
        q.channel_id is None ==> asks(
            r,
            "SELECT id FROM messages WHERE content LIKE ?1"@ + " ORDER BY created_at DESC LIMIT "@
                + text::decimal_text(n),
        ) && args(r).len() == 1,
        q.channel_id matches Some(channel) ==> asks(
            r,
            "SELECT id FROM messages WHERE content LIKE ?1"@ + " AND channel_id=?"@
                + " ORDER BY created_at DESC LIMIT "@ + text::decimal_text(n),
        ) && args(r).len() == 2 && args(r)[1] == id_text(channel),
{
    reveal_strlit("");
    let n = messages::search_limit(q.limit);
    assert("SELECT id FROM messages WHERE content LIKE ?1"@ + ""@
        =~= "SELECT id FROM messages WHERE content LIKE ?1"@);
    n
}

} // verus!

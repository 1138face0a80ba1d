//! Whole requests, from their first step to the reply, and what holds of two of them in turn.

use crate::db;
use crate::exchange::{Action, Body, Draw, Event, Reply, Stage, Step, CREATED, OK};
use crate::id;
use crate::id::Uuid;
use crate::messages::{stores_message, Reacting, Sending};
use crate::protocol::{Message, ReactionCount, SendMessageRequest, User, WsEvent};
use crate::routes::{AppState, Request};
use crate::text;
use vstd::prelude::*;

verus! {

/// The steps of a request once it is known who asks, what came of each action, and what
/// chance and the clock contributed.
pub struct Call {
    pub steps: Seq<Step>,
    pub events: Seq<Event>,
    pub draws: Seq<Draw>,
}

impl Call {
    /// The request waits at step `i`, and the event leads to the next one.
    pub open spec fn advances(self, state: AppState, i: int) -> bool {
        self.steps[i] is Ask && state.leads_to(
            self.steps[i].state(),
            self.events[i],
            self.draws[i],
            self.steps[i + 1],
        )
    }

    /// Each step but the first one follows from the one before it.
    pub open spec fn follows(self, state: AppState) -> bool {
        &&& self.steps.len() == self.events.len() + 1
        &&& self.draws.len() == self.events.len()
        &&& forall|i: int| 0 <= i < self.events.len() ==> #[trigger] self.advances(state, i)
    }

    /// Where the row of a message is asked for, a row that comes back is that message's.
    pub open spec fn finds_what_it_asks_for(self) -> bool {
        forall|i: int, message: Seq<char>|
            0 <= i < self.events.len() && #[trigger] asks_for_message(self.steps[i], message)
                ==> names_message(self.events[i], message)
    }
}

/// A step waits for the row of a message.
pub open spec fn asks_for_message(r: Step, message: Seq<char>) -> bool {
    r matches Step::Ask(_, Action::Query(s)) && db::finds_message(s, message)
}

/// Rows of which the first one, if there is one, begins with the identifier of a message.
pub open spec fn names_message(event: Event, message: Seq<char>) -> bool {
    event matches Event::Rows(rows) ==> (rows@.len() > 0 ==> (db::text_at(
        rows@[0]@,
        0,
    ) matches Some(t) && t@ == message))
}

/// Every row that the reading of a message asks for is found, from the event at 1 on.
pub open spec fn all_found(events: Seq<Event>) -> bool {
    &&& events.len() == 4
    &&& has_rows(events[1]) && db::has_message_cells(events[1]->Rows_0@[0]@)
    &&& has_rows(events[2]) && db::has_stored_user_cells(events[2]->Rows_0@[0]@)
    &&& events[3] is Rows && db::all_reaction_rows(events[3]->Rows_0@)
}

/// At least one row.
pub open spec fn has_rows(event: Event) -> bool {
    event matches Event::Rows(rows) && rows@.len() > 0
}

// ---------------------------------------------------------------------------
// Sending twice with the same key
// ---------------------------------------------------------------------------

/// The identifier that is read from a text.
pub open spec fn read_id(s: Seq<char>) -> Uuid {
    id::or_nil(id::parsed_uuid(s))
}

/// What holds of the sending of a message from where it is stored on: it stays the message
/// with the identifier `message`.
pub open spec fn sends(r: Step, message: Seq<char>) -> bool {
    match r {
        Step::Ask(Stage::Sending(Sending::Storing { me, id }), _) => id::hyphenated_text(id.0)
            == message,
        Step::Ask(Stage::Sending(Sending::Rereading { hydration }), _) => match hydration.stage {
            db::HydrationStage::Row => asks_for_message(r, message),
            db::HydrationStage::Author(row) => row.id@ == message,
            db::HydrationStage::Reactions(row, _) => row.id@ == message,
        },
        Step::Ask(Stage::Sending(Sending::Naming { message: m }), _) => m.id == read_id(message),
        Step::Ask(Stage::Sending(Sending::Telling { message: m, .. }), _) => m.id == read_id(
            message,
        ),
        Step::Ask(_, _) => false,
        Step::Done(f) => f.reply.status == CREATED ==> (f.reply.body matches Body::Message(m)
            && m.id == read_id(message)),
    }
}

proof fn lemma_sends_on(state: AppState, call: Call, message: Seq<char>, i: int)
    requires
        call.follows(state),
        call.finds_what_it_asks_for(),
        0 <= i < call.events.len(),
        sends(call.steps[i], message),
    ensures
        sends(call.steps[i + 1], message),
{
    assert(call.advances(state, i));
    let r = call.steps[i + 1];
    let event = call.events[i];
    let draw = call.draws[i];
    match call.steps[i].state() {
        Stage::Sending(Sending::Rereading { hydration }) => {
            let h = choose|h: db::Hydrated| #[trigger]
                hydration.leads_to(event, draw.now, h) && Sending::rereads(r, h);
            assert(Sending::rereads(r, h));
        },
        _ => {},
    }
}

pub proof fn lemma_sends_to_the_end(state: AppState, call: Call, message: Seq<char>, i: int, end: int)
    requires
        call.follows(state),
        call.finds_what_it_asks_for(),
        0 <= i <= end <= call.events.len(),
        sends(call.steps[i], message),
    ensures
        sends(call.steps[end], message),
    decreases end - i,
{
    if i < end {
        lemma_sends_on(state, call, message, i);
        lemma_sends_to_the_end(state, call, message, i + 1, end);
    }
}

/// What holds of a sending whose key was found, from the reading of the message `message`
/// on: it only reads, and replies with that message.
pub open spec fn recalls(r: Step, message: Seq<char>, content: Seq<char>) -> bool {
    match r {
        Step::Ask(Stage::Sending(Sending::Recalling { hydration, .. }), a) => {
            &&& a is Query
            &&& match hydration.stage {
                db::HydrationStage::Row => false,
                db::HydrationStage::Author(row) => row.id@ == message && row.content@ == content,
                db::HydrationStage::Reactions(row, _) => row.id@ == message && row.content@
                    == content,
            }
        },
        Step::Ask(_, _) => false,
        Step::Done(f) => {
            &&& f.event is None
            &&& f.reply.status == OK ==> (f.reply.body matches Body::Message(m) && m.id == read_id(
                message,
            ) && m.content@ == content)
        },
    }
}

proof fn lemma_recalls_on(
    state: AppState,
    call: Call,
    message: Seq<char>,
    content: Seq<char>,
    i: int,
)
    requires
        call.follows(state),
        0 <= i < call.events.len(),
        recalls(call.steps[i], message, content),
    ensures
        recalls(call.steps[i + 1], message, content),
{
    assert(call.advances(state, i));
    let r = call.steps[i + 1];
    let event = call.events[i];
    let draw = call.draws[i];
    match call.steps[i].state() {
        Stage::Sending(Sending::Recalling { me, channel, req, hydration }) => {
            let h = choose|h: db::Hydrated| #[trigger]
                hydration.leads_to(event, draw.now, h) && Sending::recalls(
                    r,
                    h,
                    me,
                    channel,
                    req,
                    draw,
                );
            assert(Sending::recalls(r, h, me, channel, req, draw));
        },
        _ => {},
    }
}

proof fn lemma_recalls_to_the_end(
    state: AppState,
    call: Call,
    message: Seq<char>,
    content: Seq<char>,
    i: int,
    end: int,
)
    requires
        call.follows(state),
        0 <= i <= end <= call.events.len(),
        recalls(call.steps[i], message, content),
    ensures
        recalls(call.steps[end], message, content),
    decreases end - i,
{
    if i < end {
        lemma_recalls_on(state, call, message, content, i);
        lemma_recalls_to_the_end(state, call, message, content, i + 1, end);
    }
}

/// Sending a second time with the same key gives the first message again. The first call
/// stored a message and replied with it; the second one finds it by its key, where it is
/// still stored. Then, whatever the second call's content is, nothing is stored by it and
/// nobody is told of anything, and a reply with a message is one with the first one's
/// identifier and the content that is stored. Where every row is found, there is such a
/// reply.
pub proof fn law_a_key_names_one_message(
    state: AppState,
    users: (User, User),
    tokens: (String, String),
    channels: (Uuid, Uuid),
    reqs: (SendMessageRequest, SendMessageRequest),
    draws: (Draw, Draw),
    first: Call,
    m: Message,
    second: Call,
)
    requires
        reqs.0.nonce is Some,
        reqs.1.nonce == reqs.0.nonce,
        // The first call, which finds no message with its key,
        first.follows(state),
        first.finds_what_it_asks_for(),
        state.runs(
            users.0,
            tokens.0,
            Request::Send(channels.0, reqs.0),
            draws.0,
            first.steps[0],
        ),
        first.events.len() > 0,
        first.events[0] matches Event::Rows(rows) && rows@.len() == 0,
        first.steps.last() matches Step::Done(f) && f.reply == (Reply {
            status: CREATED,
            body: Body::Message(m),
        }),
        // and the second one, which finds the message that the first one stored.
        !text::is_blank(reqs.1.content@),
        text::utf8_len(reqs.1.content@) <= 8000,
        second.follows(state),
        second.finds_what_it_asks_for(),
        state.runs(
            users.1,
            tokens.1,
            Request::Send(channels.1, reqs.1),
            draws.1,
            second.steps[0],
        ),
        second.events.len() >= 2,
        has_rows(second.events[0]),
        names_message(second.events[0], id::hyphenated_text(first.draws[0].id.0)),
        has_rows(second.events[1]),
    ensures
        forall|i: int| 0 <= i < second.steps.len() ==> !(#[trigger] second.steps[i]).writes(),
        second.steps.last() matches Step::Done(f) ==> f.event is None && (f.reply.status == OK
            ==> (f.reply.body matches Body::Message(again) && again.id == m.id && again.content@
            == db::message_row(second.events[1]->Rows_0@[0]@).content@)),
        all_found(second.events) ==> (second.steps.last() matches Step::Done(f) && f.reply.status
            == OK),
{
    let message = id::hyphenated_text(first.draws[0].id.0);
    // The first call.
    assert(first.advances(state, 0));
    assert(first.steps[0].state() == Stage::Sending(
        Sending::Looking { me: users.0.id, channel: channels.0, req: reqs.0 },
    ));
    assert(stores_message(first.steps[1], users.0.id, channels.0, reqs.0, first.draws[0]));
    assert(sends(first.steps[1], message));
    lemma_sends_to_the_end(state, first, message, 1, first.events.len() as int);
    assert(m.id == read_id(message));
    // The second call.
    let content = db::message_row(second.events[1]->Rows_0@[0]@).content@;
    assert(second.advances(state, 0));
    assert(second.advances(state, 1));
    assert(asks_for_message(second.steps[1], message));
    let s1 = second.steps[1].state();
    assert(s1 matches Stage::Sending(Sending::Recalling { hydration, .. }) && hydration.stage
        is Row);
    match s1 {
        Stage::Sending(Sending::Recalling { me, channel, req, hydration }) => {
            let h = choose|h: db::Hydrated| #[trigger]
                hydration.leads_to(second.events[1], second.draws[1].now, h)
                    && Sending::recalls(
                    second.steps[2],
                    h,
                    me,
                    channel,
                    req,
                    second.draws[1],
                );
            assert(Sending::recalls(second.steps[2], h, me, channel, req, second.draws[1]));
        },
        _ => {},
    }
    assert(recalls(second.steps[2], message, content));
    assert forall|i: int| 0 <= i < second.steps.len() implies !(
    #[trigger] second.steps[i]).writes() by {
        if i >= 2 {
            lemma_recalls_to_the_end(state, second, message, content, 2, i);
        }
    }
    lemma_recalls_to_the_end(state, second, message, content, 2, second.events.len() as int);
    if all_found(second.events) {
        assert(second.advances(state, 2));
        assert(second.advances(state, 3));
    }
}

// ---------------------------------------------------------------------------
// Toggling twice
// ---------------------------------------------------------------------------

/// A reaction: to which message, by which user, with which emoji.
pub type Reaction = (Seq<char>, Seq<char>, Seq<char>);

/// The users who reacted to a message with an emoji.
pub open spec fn reactors(stored: Set<Reaction>, message: Seq<char>, emoji: Seq<char>) -> Set<
    Seq<char>,
> {
    Set::new(|user: Seq<char>| stored.contains((message, user, emoji)))
}

/// How many reactions to a message with an emoji there are.
pub open spec fn tally(stored: Set<Reaction>, message: Seq<char>, emoji: Seq<char>) -> nat {
    reactors(stored, message, emoji).len()
}

/// The reactions after the statement of a step has run: its three arguments name the one
/// that it stores or deletes.
pub open spec fn reacted(stored: Set<Reaction>, r: Step) -> Set<Reaction> {
    match r {
        Step::Ask(_, Action::Execute(s)) => {
            let args = db::value_views(s.args@);
            let reaction = (args[0]->Text_0, args[1]->Text_0, args[2]->Text_0);
            if s.sql@ == "INSERT INTO reactions (message_id, user_id, emoji) VALUES (?1,?2,?3)"@ {
                stored.insert(reaction)
            } else if s.sql@
                == "DELETE FROM reactions WHERE message_id=?1 AND user_id=?2 AND emoji=?3"@ {
                stored.remove(reaction)
            } else {
                stored
            }
        },
        _ => stored,
    }
}

/// A list of reactions says of an emoji how often it was given, and whether by the asker.
pub open spec fn lists(
    reactions: Seq<ReactionCount>,
    emoji: Seq<char>,
    count: nat,
    mine: bool,
) -> bool {
    exists|i: int|
        0 <= i < reactions.len() && (#[trigger] reactions[i]).emoji@ == emoji
            && reactions[i].count == count && reactions[i].me == mine
}

/// A list of reactions to a message, as the user `me` sees them, tells what is stored: each
/// emoji that was given at least once, and no other.
pub open spec fn tells(
    reactions: Seq<ReactionCount>,
    stored: Set<Reaction>,
    message: Seq<char>,
    me: Seq<char>,
) -> bool {
    forall|emoji: Seq<char>, count: nat, mine: bool|
        #[trigger] lists(reactions, emoji, count, mine) <==> {
            &&& count > 0
            &&& count == tally(stored, message, emoji)
            &&& mine == stored.contains((message, me, emoji))
        }
}

impl Call {
    /// A call of `toggle_reaction` that ends with a reply, over a database that holds the
    /// reactions `before`, and `after` once the call's statement has run.
    pub open spec fn toggles(
        self,
        state: AppState,
        user: User,
        message: Uuid,
        emoji: String,
        before: Set<Reaction>,
        after: Set<Reaction>,
    ) -> bool {
        let asked = id::hyphenated_text(message.0);
        let me = id::hyphenated_text(user.id.0);
        &&& self.follows(state)
        &&& self.finds_what_it_asks_for()
        &&& exists|token: String, draw: Draw| #[trigger]
            state.runs(user, token, Request::React(message, emoji), draw, self.steps[0])
        &&& self.events.len() == 6
        &&& has_rows(self.events[1]) == before.contains((asked, me, emoji@))
        &&& after == reacted(before, self.steps[2])
        &&& self.events[5] matches Event::Rows(counted) && tells(
            db::reactions_of(counted@),
            after,
            asked,
            me,
        )
        &&& self.steps[6] matches Step::Done(f) && f.reply.status == OK
    }

    /// The message that a call replied with.
    pub open spec fn replied(self) -> Message {
        self.steps.last()->Done_0.reply.body->Message_0
    }
}

/// A call of `toggle_reaction` stores the reaction where it is not there, deletes it where it
/// is, and changes nothing else. The message that is the reply has the reactions that there
/// are then, and everyone who listens is told of the same ones.
pub proof fn law_a_toggle_changes_one_reaction(
    state: AppState,
    user: User,
    message: Uuid,
    emoji: String,
    before: Set<Reaction>,
    after: Set<Reaction>,
    call: Call,
)
    requires
        call.toggles(state, user, message, emoji, before, after),
    ensures
        ({
            let asked = id::hyphenated_text(message.0);
            let me = id::hyphenated_text(user.id.0);
            let reaction = (asked, me, emoji@);
            &&& after == if before.contains(reaction) {
                before.remove(reaction)
            } else {
                before.insert(reaction)
            }
            &&& forall|i: int|
                0 <= i < call.steps.len() && i != 2 ==> !(#[trigger] call.steps[i]).writes()
            &&& call.steps[5] matches Step::Ask(_, Action::Query(s)) && db::counts_reactions(
                s,
                asked,
                me,
            )
            &&& tells(call.replied().reactions@, after, asked, me)
            &&& call.steps.last()->Done_0.event matches Some(
                WsEvent::ReactionUpdated { channel_id, message_id, reactions },
            ) && message_id == message && reactions@ == call.replied().reactions@
        }),
{
    reveal_strlit("INSERT INTO reactions (message_id, user_id, emoji) VALUES (?1,?2,?3)");
    reveal_strlit("DELETE FROM reactions WHERE message_id=?1 AND user_id=?2 AND emoji=?3");
    assert("INSERT INTO reactions (message_id, user_id, emoji) VALUES (?1,?2,?3)"@[0] == 'I');
    assert("DELETE FROM reactions WHERE message_id=?1 AND user_id=?2 AND emoji=?3"@[0] == 'D');
    let asked = id::hyphenated_text(message.0);
    assert(call.advances(state, 0));
    assert(call.advances(state, 1));
    assert(call.advances(state, 2));
    assert(call.advances(state, 3));
    assert(call.advances(state, 4));
    assert(call.advances(state, 5));
    assert(asks_for_message(call.steps[3], asked));
    lemma_rereads(state, call, 3);
    lemma_rereads(state, call, 4);
    lemma_rereads(state, call, 5);
}

pub proof fn lemma_rereads(state: AppState, call: Call, i: int) -> (h: db::Hydrated)
    requires
        call.follows(state),
        0 <= i < call.events.len(),
        call.steps[i].state() matches Stage::Reacting(Reacting::Rereading { .. }),
    ensures
        ({
            &&& call.steps[i].state() matches Stage::Reacting(
                Reacting::Rereading { id, channel, hydration },
            )
            &&& hydration.leads_to(call.events[i], call.draws[i].now, h)
            &&& Reacting::rereads(call.steps[i + 1], h, id, channel)
        }),
{
    assert(call.advances(state, i));
    match call.steps[i].state() {
        Stage::Reacting(Reacting::Rereading { id, channel, hydration }) => choose|
            h: db::Hydrated,
        | #[trigger]
            hydration.leads_to(call.events[i], call.draws[i].now, h) && Reacting::rereads(
                call.steps[i + 1],
                h,
                id,
                channel,
            ),
        _ => db::Hydrated::Missing,
    }
}

/// Toggling twice changes nothing. After the first call the user's own reaction with the
/// emoji is turned over and its count is one more or one less, and every other emoji is as
/// it was. After the second call the reactions are the ones from before the first.
pub proof fn law_two_toggles_change_nothing(
    state: AppState,
    user: User,
    message: Uuid,
    emoji: String,
    before: Set<Reaction>,
    between: Set<Reaction>,
    after: Set<Reaction>,
    calls: (Call, Call),
    seen: Seq<ReactionCount>,
)
    requires
        before.finite(),
        calls.0.toggles(state, user, message, emoji, before, between),
        calls.1.toggles(state, user, message, emoji, between, after),
        tells(
            seen,
            before,
            id::hyphenated_text(message.0),
            id::hyphenated_text(user.id.0),
        ),
    ensures
        after == before,
        ({
            let asked = id::hyphenated_text(message.0);
            let me = id::hyphenated_text(user.id.0);
            let was = before.contains((asked, me, emoji@));
            &&& between.contains((asked, me, emoji@)) == !was
            &&& tally(between, asked, emoji@) == tally(before, asked, emoji@) + (if was {
                -1int
            } else {
                1
            })
            &&& forall|other: Seq<char>, count: nat, mine: bool|
                other != emoji@ ==> (#[trigger] lists(
                    calls.0.replied().reactions@,
                    other,
                    count,
                    mine,
                ) <==> lists(seen, other, count, mine))
            &&& forall|any: Seq<char>, count: nat, mine: bool| #[trigger]
                lists(calls.1.replied().reactions@, any, count, mine) <==> lists(
                    seen,
                    any,
                    count,
                    mine,
                )
        }),
{
    let asked = id::hyphenated_text(message.0);
    let me = id::hyphenated_text(user.id.0);
    let reaction = (asked, me, emoji@);
    law_a_toggle_changes_one_reaction(state, user, message, emoji, before, between, calls.0);
    law_a_toggle_changes_one_reaction(state, user, message, emoji, between, after, calls.1);
    assert(after =~= before);
    lemma_reactors_finite(before, asked, emoji@);
    let old_users = reactors(before, asked, emoji@);
    let new_users = reactors(between, asked, emoji@);
    if before.contains(reaction) {
        assert(new_users =~= old_users.remove(me));
    } else {
        assert(new_users =~= old_users.insert(me));
    }
    assert forall|other: Seq<char>, count: nat, mine: bool| other != emoji@ implies (
    #[trigger] lists(calls.0.replied().reactions@, other, count, mine) <==> lists(
        seen,
        other,
        count,
        mine,
    )) by {
        assert(reactors(between, asked, other) =~= reactors(before, asked, other));
    }
}

proof fn lemma_reactors_finite(stored: Set<Reaction>, message: Seq<char>, emoji: Seq<char>)
    requires
        stored.finite(),
    ensures
        reactors(stored, message, emoji).finite(),
{
    let users = stored.map(|r: Reaction| r.1);
    stored.lemma_map_finite(|r: Reaction| r.1);
    let some = reactors(stored, message, emoji);
    assert forall|user: Seq<char>| #[trigger] some.contains(user) implies users.contains(user) by {
        assert(stored.contains((message, user, emoji)));
    }
    vstd::set_lib::lemma_set_subset_finite(users, some);
}

} // verus!

//! The server's tables: the statements on them, and what their rows mean.

use crate::exchange::Event;
use crate::id;
use crate::id::Uuid;
use crate::protocol::{Message, ReactionCount, User};
use crate::text;
use crate::time;
use crate::time::Timestamp;
use vstd::prelude::*;

verus! {

// ---------------------------------------------------------------------------
// Values, rows and statements
// ---------------------------------------------------------------------------

/// A value in a row or a statement.
#[derive(Debug)]
pub enum Value {
    Null,
    Int(i64),
    Text(String),
}

/// What a value is.
pub enum ValueView {
    Null,
    Int(i64),
    Text(Seq<char>),
}

impl View for Value {
    type V = ValueView;

    open spec fn view(&self) -> ValueView {
        match self {
            Value::Null => ValueView::Null,
            Value::Int(n) => ValueView::Int(*n),
            Value::Text(s) => ValueView::Text(s@),
        }
    }
}

/// A statement in SQL, with the values for its parameters.
#[derive(Debug)]
pub struct Statement {
    pub sql: String,
    pub args: Vec<Value>,
}

pub open spec fn value_views(v: Seq<Value>) -> Seq<ValueView> {
    v.map_values(|x: Value| x@)
}

impl Statement {
    /// The statement is `sql` with `args` for its parameters.
    pub open spec fn is(self, sql: Seq<char>, args: Seq<ValueView>) -> bool {
        self.sql@ == sql && value_views(self.args@) == args
    }
}

pub open spec fn text_value(s: Seq<char>) -> ValueView {
    ValueView::Text(s)
}

pub open spec fn optional_value(s: Option<Seq<char>>) -> ValueView {
    match s {
        Some(t) => ValueView::Text(t),
        None => ValueView::Null,
    }
}

pub open spec fn id_value(u: Uuid) -> ValueView {
    ValueView::Text(id::hyphenated_text(u.0))
}

pub fn text_arg(s: &str) -> (r: Value)
    ensures
        r@ == text_value(s@),
{
    Value::Text(s.to_owned())
}

pub open spec fn optional_text(s: Option<String>) -> Option<Seq<char>> {
    match s {
        Some(t) => Some(t@),
        None => None,
    }
}

pub fn optional_arg(s: &Option<String>) -> (r: Value)
    ensures
        r@ == optional_value(optional_text(*s)),
{
    match s {
        Some(t) => Value::Text(t.clone()),
        None => Value::Null,
    }
}

pub fn id_arg(u: Uuid) -> (r: Value)
    ensures
        r@ == id_value(u),
{
    Value::Text(u.text())
}

pub open spec fn optional_id(u: Option<Uuid>) -> ValueView {
    match u {
        Some(x) => id_value(x),
        None => ValueView::Null,
    }
}

pub fn optional_id_arg(u: Option<Uuid>) -> (r: Value)
    ensures
        r@ == optional_id(u),
{
    match u {
        Some(x) => id_arg(x),
        None => Value::Null,
    }
}

pub fn statement(sql: &str, args: Vec<Value>) -> (r: Statement)
    ensures
        r.is(sql@, value_views(args@)),
{
    Statement { sql: sql.to_owned(), args }
}

/// A statement without parameters.
pub fn statement0(sql: &str) -> (r: Statement)
    ensures
        r.is(sql@, Seq::empty()),
{
    let args: Vec<Value> = Vec::new();
    assert(value_views(args@) =~= Seq::<ValueView>::empty());
    statement(sql, args)
}

/// A statement with one parameter.
pub fn statement1(sql: &str, a: Value) -> (r: Statement)
    ensures
        r.is(sql@, seq![a@]),
{
    let args: Vec<Value> = vec![a];
    assert(value_views(args@) =~= seq![a@]);
    statement(sql, args)
}

/// A statement with two parameters.
pub fn statement2(sql: &str, a: Value, b: Value) -> (r: Statement)
    ensures
        r.is(sql@, seq![a@, b@]),
{
    let args: Vec<Value> = vec![a, b];
    assert(value_views(args@) =~= seq![a@, b@]);
    statement(sql, args)
}

/// A statement with three parameters.
pub fn statement3(sql: &str, a: Value, b: Value, c: Value) -> (r: Statement)
    ensures
        r.is(sql@, seq![a@, b@, c@]),
{
    let args: Vec<Value> = vec![a, b, c];
    assert(value_views(args@) =~= seq![a@, b@, c@]);
    statement(sql, args)
}

/// A statement with four parameters.
pub fn statement4(sql: &str, a: Value, b: Value, c: Value, d: Value) -> (r: Statement)
    ensures
        r.is(sql@, seq![a@, b@, c@, d@]),
{
    let args: Vec<Value> = vec![a, b, c, d];
    assert(value_views(args@) =~= seq![a@, b@, c@, d@]);
    statement(sql, args)
}

/// A statement with five parameters.
pub fn statement5(sql: &str, a: Value, b: Value, c: Value, d: Value, e: Value) -> (r: Statement)
    ensures
        r.is(sql@, seq![a@, b@, c@, d@, e@]),
{
    let args: Vec<Value> = vec![a, b, c, d, e];
    assert(value_views(args@) =~= seq![a@, b@, c@, d@, e@]);
    statement(sql, args)
}

/// The text in a cell that has to hold one.
pub open spec fn text_at(row: Seq<Value>, i: int) -> Option<String> {
    if 0 <= i < row.len() {
        match row[i] {
            Value::Text(s) => Some(s),
            _ => None,
        }
    } else {
        None
    }
}

/// The text in a cell that may be empty.
pub open spec fn optional_at(row: Seq<Value>, i: int) -> Option<Option<String>> {
    if 0 <= i < row.len() {
        match row[i] {
            Value::Text(s) => Some(Some(s)),
            Value::Null => Some(None),
            _ => None,
        }
    } else {
        None
    }
}

/// The number in a cell that has to hold one.
pub open spec fn int_at(row: Seq<Value>, i: int) -> Option<i64> {
    if 0 <= i < row.len() {
        match row[i] {
            Value::Int(n) => Some(n),
            _ => None,
        }
    } else {
        None
    }
}

/// The number in a cell that may be empty.
pub open spec fn optional_int_at(row: Seq<Value>, i: int) -> Option<Option<i64>> {
    if 0 <= i < row.len() {
        match row[i] {
            Value::Int(n) => Some(Some(n)),
            Value::Null => Some(None),
            _ => None,
        }
    } else {
        None
    }
}

pub fn text_cell(row: &Vec<Value>, i: usize) -> (r: Option<String>)
    ensures
        r == text_at(row@, i as int),
{
    if i < row.len() {
        match &row[i] {
            Value::Text(s) => Some(s.clone()),
            _ => None,
        }
    } else {
        None
    }
}

pub fn optional_cell(row: &Vec<Value>, i: usize) -> (r: Option<Option<String>>)
    ensures
        r == optional_at(row@, i as int),
{
    if i < row.len() {
        match &row[i] {
            Value::Text(s) => Some(Some(s.clone())),
            Value::Null => Some(None),
            _ => None,
        }
    } else {
        None
    }
}

pub fn int_cell(row: &Vec<Value>, i: usize) -> (r: Option<i64>)
    ensures
        r == int_at(row@, i as int),
{
    if i < row.len() {
        match &row[i] {
            Value::Int(n) => Some(*n),
            _ => None,
        }
    } else {
        None
    }
}

pub fn optional_int_cell(row: &Vec<Value>, i: usize) -> (r: Option<Option<i64>>)
    ensures
        r == optional_int_at(row@, i as int),
{
    if i < row.len() {
        match &row[i] {
            Value::Int(n) => Some(Some(*n)),
            Value::Null => Some(None),
            _ => None,
        }
    } else {
        None
    }
}

/// The stored text `s` reads as `t`, or as the present where it gives no point in time.
pub open spec fn reads_as(t: Timestamp, s: Seq<char>, now: Timestamp) -> bool {
    match time::parsed_time(s) {
        Some(p) => t.spec_secs() == p.0 && t.spec_nanos() == p.1,
        None => t == now,
    }
}

/// The stored text reads as `t`, or gives no point in time.
pub open spec fn may_read_as(t: Option<Timestamp>, s: Option<String>) -> bool {
    match s {
        Some(x) => match time::parsed_time(x@) {
            Some(p) => t matches Some(u) && u.spec_secs() == p.0 && u.spec_nanos() == p.1,
            None => t is None,
        },
        None => t is None,
    }
}

pub fn stored_time(s: &str, now: Timestamp) -> (r: Timestamp)
    ensures
        reads_as(r, s@, now),
{
    match Timestamp::parse(s) {
        Some(t) => t,
        None => now,
    }
}

pub fn stored_optional_time(s: &Option<String>) -> (r: Option<Timestamp>)
    ensures
        may_read_as(r, *s),
{
    match s {
        Some(x) => Timestamp::parse(x.as_str()),
        None => None,
    }
}

/// The identifier in an optional text, where it spells one.
pub open spec fn optional_parsed(s: Option<String>) -> Option<Uuid> {
    match s {
        Some(x) => match id::parsed_uuid(x@) {
            Some(u) => Some(Uuid(u)),
            None => None,
        },
        None => None,
    }
}

pub fn stored_optional_id(s: &Option<String>) -> (r: Option<Uuid>)
    ensures
        r == optional_parsed(*s),
{
    match s {
        Some(x) => Uuid::parse(x.as_str()),
        None => None,
    }
}

/// Every row starts with a text.
pub open spec fn all_text_rows(rows: Seq<Vec<Value>>) -> bool {
    forall|i: int| 0 <= i < rows.len() ==> text_at((#[trigger] rows[i])@, 0) is Some
}

/// The texts that the rows start with.
pub open spec fn first_texts(rows: Seq<Vec<Value>>) -> Seq<String> {
    rows.map_values(|row: Vec<Value>| text_at(row@, 0)->0)
}

pub fn map_texts(rows: &Vec<Vec<Value>>) -> (r: Option<Vec<String>>)
    ensures
        r is Some <==> all_text_rows(rows@),
        r matches Some(v) ==> v@ == first_texts(rows@),
{
    let mut out: Vec<String> = Vec::new();
    let mut i: usize = 0;
    let ghost want = first_texts(rows@);
    while i < rows.len()
        invariant
            i <= rows@.len(),
            want == first_texts(rows@),
            out@ == want.take(i as int),
            forall|k: int| 0 <= k < i ==> text_at((#[trigger] rows@[k])@, 0) is Some,
        decreases rows@.len() - i,
    {
        match text_cell(&rows[i], 0) {
            Some(s) => {
                out.push(s);
                assert(want.take(i + 1) =~= want.take(i as int).push(want[i as int]));
            },
            None => {
                assert(text_at(rows@[i as int]@, 0) is None);
                return None;
            },
        }
        i += 1;
    }
    assert(want.take(i as int) =~= want);
    Some(out)
}

// ---------------------------------------------------------------------------
// Schema and seed
// ---------------------------------------------------------------------------

/// What is set on every connection, before anything else.
pub const PRAGMAS: &'static str = "PRAGMA journal_mode=WAL; PRAGMA foreign_keys=ON;";

/// The tables, each made where it is not there yet.
pub const SCHEMA: &'static str = "
        CREATE TABLE IF NOT EXISTS users (
            id TEXT PRIMARY KEY,
            name TEXT NOT NULL UNIQUE,
            display_name TEXT,
            password_hash TEXT NOT NULL,
            bot INTEGER NOT NULL DEFAULT 0,
            avatar INTEGER NOT NULL DEFAULT 0,
            created_at TEXT NOT NULL
        );
        CREATE TABLE IF NOT EXISTS tokens (
            token TEXT PRIMARY KEY,
            user_id TEXT NOT NULL REFERENCES users(id) ON DELETE CASCADE,
            created_at TEXT NOT NULL
        );
        CREATE TABLE IF NOT EXISTS servers (
            id TEXT PRIMARY KEY,
            name TEXT NOT NULL,
            description TEXT,
            created_at TEXT NOT NULL
        );
        CREATE TABLE IF NOT EXISTS server_members (
            server_id TEXT NOT NULL REFERENCES servers(id) ON DELETE CASCADE,
            user_id TEXT NOT NULL REFERENCES users(id) ON DELETE CASCADE,
            PRIMARY KEY (server_id, user_id)
        );
        CREATE TABLE IF NOT EXISTS channels (
            id TEXT PRIMARY KEY,
            server_id TEXT REFERENCES servers(id) ON DELETE CASCADE,
            parent_id TEXT REFERENCES channels(id) ON DELETE CASCADE,
            name TEXT NOT NULL,
            topic TEXT,
            kind TEXT NOT NULL DEFAULT 'text',
            position INTEGER NOT NULL DEFAULT 0
        );
        CREATE TABLE IF NOT EXISTS messages (
            id TEXT PRIMARY KEY,
            channel_id TEXT NOT NULL REFERENCES channels(id) ON DELETE CASCADE,
            author_id TEXT NOT NULL REFERENCES users(id),
            content TEXT NOT NULL,
            created_at TEXT NOT NULL,
            edited_at TEXT,
            reply_to TEXT,
            pinned INTEGER NOT NULL DEFAULT 0,
            nonce TEXT
        );
        CREATE INDEX IF NOT EXISTS idx_messages_channel ON messages(channel_id, created_at);
        CREATE TABLE IF NOT EXISTS reactions (
            message_id TEXT NOT NULL REFERENCES messages(id) ON DELETE CASCADE,
            user_id TEXT NOT NULL REFERENCES users(id) ON DELETE CASCADE,
            emoji TEXT NOT NULL,
            PRIMARY KEY (message_id, user_id, emoji)
        );
        CREATE TABLE IF NOT EXISTS notifications (
            id TEXT PRIMARY KEY,
            user_id TEXT NOT NULL REFERENCES users(id) ON DELETE CASCADE,
            channel_id TEXT NOT NULL,
            message_id TEXT NOT NULL REFERENCES messages(id) ON DELETE CASCADE,
            kind TEXT NOT NULL,
            created_at TEXT NOT NULL,
            read INTEGER NOT NULL DEFAULT 0
        );
        ";

/// How many columns for the mark of an image the users' table has.
pub const COUNT_AVATAR_COLUMNS: &'static str = "SELECT COUNT(*) FROM pragma_table_info('users') WHERE name='avatar'";

/// The statements that a users' table with so many columns for the mark of an image needs.
pub open spec fn adds_avatar_column(columns: i64, r: Seq<Statement>) -> bool {
    if columns > 0 {
        r.len() == 0
    } else {
        r.len() == 1 && r[0].is(
            "ALTER TABLE users ADD COLUMN avatar INTEGER NOT NULL DEFAULT 0"@,
            Seq::empty(),
        )
    }
}

/// What a users' table without a column for the mark of an image needs. Nobody has an image
/// then.
pub fn add_avatar_column(columns: i64) -> (r: Vec<Statement>)
    ensures
        adds_avatar_column(columns, r@),
        columns > 0 ==> r@.len() == 0,
        columns <= 0 ==> r@.len() == 1 && r@[0].is(
            "ALTER TABLE users ADD COLUMN avatar INTEGER NOT NULL DEFAULT 0"@,
            Seq::empty(),
        ),
{
    let mut out: Vec<Statement> = Vec::new();
    if columns <= 0 {
        out.push(statement0("ALTER TABLE users ADD COLUMN avatar INTEGER NOT NULL DEFAULT 0"));
    }
    out
}

/// How many servers there are.
pub const COUNT_SERVERS: &'static str = "SELECT COUNT(*) FROM servers";

/// The statement that seeds one channel of the first server.
pub open spec fn seeds_channel(
    s: Statement,
    channel: Uuid,
    server: Uuid,
    name: Seq<char>,
    topic: Seq<char>,
    position: i64,
) -> bool {
    s.is(
        "INSERT INTO channels (id, server_id, name, topic, kind, position) VALUES (?1,?2,?3,?4,'text',?5)"@,
        seq![
            id_value(channel),
            id_value(server),
            text_value(name),
            text_value(topic),
            ValueView::Int(position),
        ],
    )
}

/// The statements that a database with so many servers is filled with.
pub open spec fn seeds(
    servers: i64,
    server_id: Uuid,
    general: Uuid,
    random: Uuid,
    stamp: Seq<char>,
    r: Seq<Statement>,
) -> bool {
    if servers > 0 {
        r.len() == 0
    } else {
        &&& r.len() == 3
        &&& r[0].is(
            "INSERT INTO servers (id, name, description, created_at) VALUES (?1,'general','Welcome to tuimessager — your self-hosted Concord-style chat',?2)"@,
            seq![id_value(server_id), text_value(stamp)],
        )
        &&& seeds_channel(r[1], general, server_id, "general"@, "General discussion"@, 0)
        &&& seeds_channel(r[2], random, server_id, "random"@, "Off-topic"@, 1)
    }
}

/// What fills a database that has no servers: the server `general` with the channels
/// `general` and `random`, in this order. A database with servers is left as it is.
pub fn seed_if_empty(
    servers: i64,
    server_id: Uuid,
    general: Uuid,
    random: Uuid,
    stamp: &str,
) -> (r: Vec<Statement>)
    ensures
        servers > 0 ==> r@.len() == 0,
        servers <= 0 ==> {
            &&& r@.len() == 3
            &&& r@[0].is(
                "INSERT INTO servers (id, name, description, created_at) VALUES (?1,'general','Welcome to tuimessager — your self-hosted Concord-style chat',?2)"@,
                seq![id_value(server_id), text_value(stamp@)],
            )
            &&& seeds_channel(r@[1], general, server_id, "general"@, "General discussion"@, 0)
            &&& seeds_channel(r@[2], random, server_id, "random"@, "Off-topic"@, 1)
        },
        seeds(servers, server_id, general, random, stamp@, r@),
{
    let mut out: Vec<Statement> = Vec::new();
    if servers > 0 {
        return out;
    }
    out.push(
        statement2(
            "INSERT INTO servers (id, name, description, created_at) VALUES (?1,'general','Welcome to tuimessager — your self-hosted Concord-style chat',?2)",
            id_arg(server_id),
            text_arg(stamp),
        ),
    );
    out.push(seed_channel(general, server_id, "general", "General discussion", 0));
    out.push(seed_channel(random, server_id, "random", "Off-topic", 1));
    out
}

fn seed_channel(channel: Uuid, server: Uuid, name: &str, topic: &str, position: i64) -> (r:
    Statement)
    ensures
        seeds_channel(r, channel, server, name@, topic@, position),
{
    statement5(
        "INSERT INTO channels (id, server_id, name, topic, kind, position) VALUES (?1,?2,?3,?4,'text',?5)",
        id_arg(channel),
        id_arg(server),
        text_arg(name),
        text_arg(topic),
        Value::Int(position),
    )
}

// ---------------------------------------------------------------------------
// Users
// ---------------------------------------------------------------------------

/// The statement finds the user with an identifier.
pub open spec fn finds_user(s: Statement, user_id: Seq<char>) -> bool {
    s.is(
        "SELECT id, name, display_name, bot, created_at, avatar FROM users WHERE id=?1"@,
        seq![text_value(user_id)],
    )
}

pub fn user_by_id(user_id: &str) -> (r: Statement)
    ensures
        finds_user(r, user_id@),
{
    statement1(
        "SELECT id, name, display_name, bot, created_at, avatar FROM users WHERE id=?1",
        text_arg(user_id),
    )
}

/// Where the image of a user is served.
pub open spec fn avatar_address(u: Uuid) -> Seq<char> {
    "/api/v1/users/"@ + id::hyphenated_text(u.0) + "/avatar"@
}

pub fn avatar_url(u: Uuid) -> (r: String)
    ensures
        r@ == avatar_address(u),
{
    let text = u.text();
    let mut out = text::joined("/api/v1/users/", text.as_str());
    out.append("/avatar");
    out
}

/// The cells of a row hold a user's identifier, name, display name, bot flag and time of
/// creation.
pub open spec fn has_user_cells(row: Seq<Value>) -> bool {
    &&& text_at(row, 0) is Some
    &&& text_at(row, 1) is Some
    &&& optional_at(row, 2) is Some
    &&& int_at(row, 3) is Some
    &&& text_at(row, 4) is Some
}

/// The user that such a row tells of, whatever image they have.
pub open spec fn is_user(row: Seq<Value>, now: Timestamp, u: User) -> bool {
    &&& has_user_cells(row)
    &&& u.id == id::or_nil(id::parsed_uuid(text_at(row, 0)->0@))
    &&& u.name == text_at(row, 1)->0
    &&& u.display_name == optional_at(row, 2)->0
    &&& u.bot == (int_at(row, 3)->0 != 0)
    &&& reads_as(u.created_at, text_at(row, 4)->0@, now)
}

/// The user of a row that says nothing of images.
pub fn basic_user(row: &Vec<Value>, now: Timestamp) -> (r: Option<User>)
    ensures
        r is Some <==> has_user_cells(row@),
        r matches Some(u) ==> is_user(row@, now, u) && u.avatar_url is None,
{
    let user_id = match text_cell(row, 0) {
        Some(s) => s,
        None => {
            return None;
        },
    };
    let name = match text_cell(row, 1) {
        Some(s) => s,
        None => {
            return None;
        },
    };
    let display_name = match optional_cell(row, 2) {
        Some(s) => s,
        None => {
            return None;
        },
    };
    let bot: i64 = match int_cell(row, 3) {
        Some(n) => n,
        None => {
            return None;
        },
    };
    let created_at = match text_cell(row, 4) {
        Some(s) => s,
        None => {
            return None;
        },
    };
    Some(
        User {
            id: Uuid::parse_or_nil(user_id.as_str()),
            name,
            display_name,
            avatar_url: None,
            bot: bot != 0,
            created_at: stored_time(created_at.as_str(), now),
        },
    )
}

/// A row of the users' table: the user it tells of has an image address exactly where the
/// row says that there is an image.
pub open spec fn is_stored_user(row: Seq<Value>, now: Timestamp, u: User) -> bool {
    &&& is_user(row, now, u)
    &&& int_at(row, 5) is Some
    &&& u.avatar_url is Some <==> int_at(row, 5)->0 != 0
    &&& u.avatar_url matches Some(a) ==> a@ == avatar_address(u.id)
}

pub open spec fn has_stored_user_cells(row: Seq<Value>) -> bool {
    has_user_cells(row) && int_at(row, 5) is Some
}

/// The user that a row of the users' table tells of.
pub fn map_user(row: &Vec<Value>, now: Timestamp) -> (r: Option<User>)
    ensures
        r is Some <==> has_stored_user_cells(row@),
        r matches Some(u) ==> is_stored_user(row@, now, u),
{
    match basic_user(row, now) {
        Some(u) => match int_cell(row, 5) {
            Some(avatar) => {
                if avatar != 0 {
                    let address = avatar_url(u.id);
                    Some(User { avatar_url: Some(address), ..u })
                } else {
                    Some(u)
                }
            },
            None => None,
        },
        None => None,
    }
}

/// The statement finds the user with a name, and the hash of their password.
pub open spec fn finds_login(s: Statement, name: Seq<char>) -> bool {
    s.is(
        "SELECT id, name, display_name, bot, created_at, password_hash FROM users WHERE name=?1"@,
        seq![text_value(name)],
    )
}

pub fn user_by_name(name: &str) -> (r: Statement)
    ensures
        finds_login(r, name@),
{
    statement1(
        "SELECT id, name, display_name, bot, created_at, password_hash FROM users WHERE name=?1",
        text_arg(name),
    )
}

pub open spec fn has_login_cells(row: Seq<Value>) -> bool {
    has_user_cells(row) && text_at(row, 5) is Some
}

/// The user and the password hash of a row found by name. Unlike elsewhere, an identifier
/// that cannot be read is an error.
pub fn map_login(row: &Vec<Value>, now: Timestamp) -> (r: Result<(User, String), String>)
    ensures
        r is Ok <==> has_login_cells(row@) && id::parsed_uuid(text_at(row@, 0)->0@) is Some,
        r matches Ok(p) ==> is_user(row@, now, p.0) && p.0.avatar_url is None && Some(p.1)
            == text_at(row@, 5),
        r matches Err(e) ==> e@ == (if has_login_cells(row@) {
            "Invalid column type Text at index: 0, name: uuid"@
        } else {
            "malformed row"@
        }),
{
    let user = match basic_user(row, now) {
        Some(u) => u,
        None => {
            return Err("malformed row".to_owned());
        },
    };
    let hash = match text_cell(row, 5) {
        Some(s) => s,
        None => {
            return Err("malformed row".to_owned());
        },
    };
    let readable = match text_cell(row, 0) {
        Some(s) => Uuid::parse(s.as_str()).is_some(),
        None => false,
    };
    if readable {
        Ok((user, hash))
    } else {
        Err("Invalid column type Text at index: 0, name: uuid".to_owned())
    }
}

// ---------------------------------------------------------------------------
// Reactions
// ---------------------------------------------------------------------------

/// The statement counts the reactions to a message, and those of one user among them.
pub open spec fn counts_reactions(s: Statement, message_id: Seq<char>, me: Seq<char>) -> bool {
    s.is(
        "SELECT emoji, COUNT(*), SUM(CASE WHEN user_id=?2 THEN 1 ELSE 0 END) FROM reactions WHERE message_id=?1 GROUP BY emoji"@,
        seq![text_value(message_id), text_value(me)],
    )
}

pub fn message_reactions(message_id: &str, me: &str) -> (r: Statement)
    ensures
        counts_reactions(r, message_id@, me@),
{
    statement2(
        "SELECT emoji, COUNT(*), SUM(CASE WHEN user_id=?2 THEN 1 ELSE 0 END) FROM reactions WHERE message_id=?1 GROUP BY emoji",
        text_arg(message_id),
        text_arg(me),
    )
}

pub open spec fn has_reaction_cells(row: Seq<Value>) -> bool {
    text_at(row, 0) is Some && int_at(row, 1) is Some && optional_int_at(row, 2) is Some
}

/// The reaction that a row counts. It is also the asker's own where at least one is.
pub open spec fn reaction_of(row: Seq<Value>) -> ReactionCount {
    ReactionCount {
        emoji: text_at(row, 0)->0,
        count: int_at(row, 1)->0 as u64,
        me: optional_int_at(row, 2)->0 matches Some(n) && n > 0,
    }
}

pub open spec fn all_reaction_rows(rows: Seq<Vec<Value>>) -> bool {
    forall|i: int| 0 <= i < rows.len() ==> has_reaction_cells((#[trigger] rows[i])@)
}

pub open spec fn reactions_of(rows: Seq<Vec<Value>>) -> Seq<ReactionCount> {
    rows.map_values(|row: Vec<Value>| reaction_of(row@))
}

fn map_reaction(row: &Vec<Value>) -> (r: Option<ReactionCount>)
    ensures
        r is Some <==> has_reaction_cells(row@),
        r matches Some(c) ==> c == reaction_of(row@),
{
    let emoji = match text_cell(row, 0) {
        Some(s) => s,
        None => {
            return None;
        },
    };
    let count: i64 = match int_cell(row, 1) {
        Some(n) => n,
        None => {
            return None;
        },
    };
    let mine = match optional_int_cell(row, 2) {
        Some(n) => n,
        None => {
            return None;
        },
    };
    let me: bool = match mine {
        Some(n) => n > 0,
        None => false,
    };
    Some(ReactionCount { emoji, count: count as u64, me })
}

/// The reactions that some rows count.
pub fn map_reactions(rows: &Vec<Vec<Value>>) -> (r: Option<Vec<ReactionCount>>)
    ensures
        r is Some <==> all_reaction_rows(rows@),
        r matches Some(v) ==> v@ == reactions_of(rows@),
{
    let mut out: Vec<ReactionCount> = Vec::new();
    let mut i: usize = 0;
    let ghost want = reactions_of(rows@);
    while i < rows.len()
        invariant
            i <= rows@.len(),
            want == reactions_of(rows@),
            out@ == want.take(i as int),
            forall|k: int| 0 <= k < i ==> has_reaction_cells((#[trigger] rows@[k])@),
        decreases rows@.len() - i,
    {
        match map_reaction(&rows[i]) {
            Some(c) => {
                out.push(c);
                assert(want.take(i + 1) =~= want.take(i as int).push(want[i as int]));
            },
            None => {
                assert(!has_reaction_cells(rows@[i as int]@));
                return None;
            },
        }
        i += 1;
    }
    assert(want.take(i as int) =~= want);
    Some(out)
}

// ---------------------------------------------------------------------------
// Messages
// ---------------------------------------------------------------------------

/// A row of the messages' table.
#[derive(Debug)]
pub struct MessageRow {
    pub id: String,
    pub channel_id: String,
    pub author_id: String,
    pub content: String,
    pub created_at: String,
    pub edited_at: Option<String>,
    pub reply_to: Option<String>,
    pub pinned: i64,
}

pub open spec fn has_message_cells(row: Seq<Value>) -> bool {
    &&& text_at(row, 0) is Some
    &&& text_at(row, 1) is Some
    &&& text_at(row, 2) is Some
    &&& text_at(row, 3) is Some
    &&& text_at(row, 4) is Some
    &&& optional_at(row, 5) is Some
    &&& optional_at(row, 6) is Some
    &&& int_at(row, 7) is Some
}

/// What the cells of such a row are called.
pub open spec fn message_row(row: Seq<Value>) -> MessageRow {
    MessageRow {
        id: text_at(row, 0)->0,
        channel_id: text_at(row, 1)->0,
        author_id: text_at(row, 2)->0,
        content: text_at(row, 3)->0,
        created_at: text_at(row, 4)->0,
        edited_at: optional_at(row, 5)->0,
        reply_to: optional_at(row, 6)->0,
        pinned: int_at(row, 7)->0,
    }
}

fn map_message(row: &Vec<Value>) -> (r: Option<MessageRow>)
    ensures
        r is Some <==> has_message_cells(row@),
        r matches Some(m) ==> m == message_row(row@),
{
    match (text_cell(row, 0), text_cell(row, 1), text_cell(row, 2), text_cell(row, 3)) {
        (Some(message_id), Some(channel_id), Some(author_id), Some(content)) => {
            match (
                text_cell(row, 4),
                optional_cell(row, 5),
                optional_cell(row, 6),
                int_cell(row, 7),
            ) {
                (Some(created_at), Some(edited_at), Some(reply_to), Some(pinned)) => Some(
                    MessageRow {
                        id: message_id,
                        channel_id,
                        author_id,
                        content,
                        created_at,
                        edited_at,
                        reply_to,
                        pinned,
                    },
                ),
                _ => None,
            }
        },
        _ => None,
    }
}

/// The message that a row, its author and the rows of its reactions make up.
pub open spec fn is_message(
    row: MessageRow,
    author: User,
    reactions: Seq<Vec<Value>>,
    now: Timestamp,
    m: Message,
) -> bool {
    &&& m.id == id::or_nil(id::parsed_uuid(row.id@))
    &&& m.channel_id == id::or_nil(id::parsed_uuid(row.channel_id@))
    &&& m.author == author
    &&& m.content == row.content
    &&& reads_as(m.created_at, row.created_at@, now)
    &&& may_read_as(m.edited_at, row.edited_at)
    &&& m.reply_to == optional_parsed(row.reply_to)
    &&& m.pinned == (row.pinned != 0)
    &&& m.reactions@ == reactions_of(reactions)
    &&& m.attachments@.len() == 0
    &&& m.embeds@.len() == 0
}

/// How far the reading of a message has come, for the user `me`.
#[derive(Debug)]
pub struct Hydration {
    pub me: String,
    pub stage: HydrationStage,
}

#[derive(Debug)]
pub enum HydrationStage {
    /// The message's row is awaited,
    Row,
    /// then its author,
    Author(MessageRow),
    /// then its reactions.
    Reactions(MessageRow, User),
}

/// What follows in the reading of a message.
#[derive(Debug)]
pub enum Hydrated {
    Ask(Hydration, Statement),
    Message(Message),
    /// There is no such message.
    Missing,
    Broken(String),
}

impl Hydrated {
    pub open spec fn is_broken(self, why: Seq<char>) -> bool {
        self matches Hydrated::Broken(e) && e@ == why
    }
}

/// The statement finds the row of a message.
pub open spec fn finds_message(s: Statement, message_id: Seq<char>) -> bool {
    s.is(
        "SELECT id, channel_id, author_id, content, created_at, edited_at, reply_to, pinned FROM messages WHERE id=?1"@,
        seq![text_value(message_id)],
    )
}

/// The reading of a message for the user `me` starts with its row.
pub open spec fn starts_hydration(
    h: Hydration,
    s: Statement,
    message_id: Seq<char>,
    me: Seq<char>,
) -> bool {
    h.me@ == me && h.stage is Row && finds_message(s, message_id)
}

pub fn hydrate_message(message_id: &str, me: &str) -> (r: (Hydration, Statement))
    ensures
        starts_hydration(r.0, r.1, message_id@, me@),
{
    (
        Hydration { me: me.to_owned(), stage: HydrationStage::Row },
        statement1(
            "SELECT id, channel_id, author_id, content, created_at, edited_at, reply_to, pinned FROM messages WHERE id=?1",
            text_arg(message_id),
        ),
    )
}

impl Hydration {
    /// What the rows of the awaited statement lead to.
    pub open spec fn reads(self, rows: Seq<Vec<Value>>, now: Timestamp, r: Hydrated) -> bool {
        match self.stage {
            HydrationStage::Row => if rows.len() == 0 {
                r is Missing
            } else if has_message_cells(rows[0]@) {
                &&& r matches Hydrated::Ask(h, s)
                &&& h.me == self.me
                &&& h.stage == HydrationStage::Author(message_row(rows[0]@))
                &&& finds_user(s, message_row(rows[0]@).author_id@)
            } else {
                r.is_broken("malformed row"@)
            },
            HydrationStage::Author(row) => if rows.len() == 0 {
                r.is_broken("author missing"@)
            } else if has_stored_user_cells(rows[0]@) {
                &&& r matches Hydrated::Ask(h, s)
                &&& h.me == self.me
                &&& h.stage matches HydrationStage::Reactions(same, author)
                &&& same == row
                &&& is_stored_user(rows[0]@, now, author)
                &&& counts_reactions(s, row.id@, self.me@)
            } else {
                r.is_broken("malformed row"@)
            },
            HydrationStage::Reactions(row, author) => if all_reaction_rows(rows) {
                r matches Hydrated::Message(m) && is_message(row, author, rows, now, m)
            } else {
                r.is_broken("malformed row"@)
            },
        }
    }

    /// What an event leads to.
    pub open spec fn leads_to(self, event: Event, now: Timestamp, r: Hydrated) -> bool {
        match event {
            Event::Rows(rows) => self.reads(rows@, now, r),
            Event::Failed(e) => r.is_broken(e@),
            _ => r.is_broken("unexpected event"@),
        }
    }

    /// Goes on with the reading.
    pub fn next(self, event: Event, now: Timestamp) -> (r: Hydrated)
        ensures
            self.leads_to(event, now, r),
    {
        let rows = match event {
            Event::Rows(rows) => rows,
            Event::Failed(e) => {
                return Hydrated::Broken(e);
            },
            _ => {
                return Hydrated::Broken("unexpected event".to_owned());
            },
        };
        match self.stage {
            HydrationStage::Row => {
                if rows.len() == 0 {
                    return Hydrated::Missing;
                }
                match map_message(&rows[0]) {
                    Some(row) => {
                        let s = user_by_id(row.author_id.as_str());
                        Hydrated::Ask(
                            Hydration { me: self.me, stage: HydrationStage::Author(row) },
                            s,
                        )
                    },
                    None => Hydrated::Broken("malformed row".to_owned()),
                }
            },
            HydrationStage::Author(row) => {
                if rows.len() == 0 {
                    return Hydrated::Broken("author missing".to_owned());
                }
                match map_user(&rows[0], now) {
                    Some(author) => {
                        let s = message_reactions(row.id.as_str(), self.me.as_str());
                        Hydrated::Ask(
                            Hydration {
                                me: self.me,
                                stage: HydrationStage::Reactions(row, author),
                            },
                            s,
                        )
                    },
                    None => Hydrated::Broken("malformed row".to_owned()),
                }
            },
            HydrationStage::Reactions(row, author) => match map_reactions(&rows) {
                Some(reactions) => Hydrated::Message(
                    Message {
                        id: Uuid::parse_or_nil(row.id.as_str()),
                        channel_id: Uuid::parse_or_nil(row.channel_id.as_str()),
                        author,
                        created_at: stored_time(row.created_at.as_str(), now),
                        edited_at: stored_optional_time(&row.edited_at),
                        reply_to: stored_optional_id(&row.reply_to),
                        pinned: row.pinned != 0,
                        reactions,
                        attachments: Vec::new(),
                        embeds: Vec::new(),
                        content: row.content,
                    },
                ),
                None => Hydrated::Broken("malformed row".to_owned()),
            },
        }
    }
}

} // verus!

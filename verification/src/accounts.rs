//! Accounts on the server: who is asking, registration, login, profile and image.

use crate::codec;
use crate::db;
use crate::exchange::{
    fail, refuse, reply, stumble, Action, Body, Draw, Event, Stage, Step,
    BAD_REQUEST, CONFLICT, CREATED, FORBIDDEN, INTERNAL_SERVER_ERROR, NOT_FOUND, NO_CONTENT, OK,
    UNAUTHORIZED,
};
use crate::id;
use crate::id::Uuid;
use crate::passwords;
use crate::protocol::{
    AuthResponse, LoginRequest, RegisterRequest, SetAvatarRequest, UpdateMeRequest, User,
};
use crate::text;
use crate::time::Timestamp;
use vstd::prelude::*;

verus! {

// ---------------------------------------------------------------------------
// Who is asking
// ---------------------------------------------------------------------------

/// How far the lookup of the one who asks has come, by the token that they sent.
#[derive(Debug)]
pub enum Auth {
    Token(String),
    User(String),
}

/// What follows in the lookup.
#[derive(Debug)]
pub enum Authed {
    Ask(Auth, db::Statement),
    Known { user: User, token: String },
    Refused { status: u16, why: String },
}

impl Authed {
    pub open spec fn refuses(self, status: u16, why: Seq<char>) -> bool {
        self matches Authed::Refused { status: s, why: w } && s == status && w@ == why
    }
}

/// The token in an `authorization` header.
pub open spec fn bearer(authorization: Option<Seq<char>>) -> Option<Seq<char>> {
    match authorization {
        Some(h) => text::after_prefix(h, "Bearer "@),
        None => None,
    }
}

/// The statement finds whose token it is.
pub open spec fn finds_token(s: db::Statement, token: Seq<char>) -> bool {
    s.is("SELECT user_id FROM tokens WHERE token=?1"@, seq![db::text_value(token)])
}

pub fn token_owner(token: &str) -> (r: db::Statement)
    ensures
        finds_token(r, token@),
{
    db::statement1("SELECT user_id FROM tokens WHERE token=?1", db::text_arg(token))
}

/// The first step of `auth_user`.
pub open spec fn begins_auth_user(authorization: Option<String>, r: Authed) -> bool {
    match bearer(db::optional_text(authorization)) {
        Some(token) => {
            &&& r matches Authed::Ask(a, s)
            &&& a matches Auth::Token(t)
            &&& t@ == token
            &&& finds_token(s, token)
        },
        None => r.refuses(UNAUTHORIZED, "missing Bearer token"@),
    }
}

/// Starts to look up who asks.
pub fn auth_user(authorization: &Option<String>) -> (r: Authed)
    ensures
        begins_auth_user(*authorization, r),
{
    let token = match authorization {
        Some(h) => text::strip_prefix(h.as_str(), "Bearer "),
        None => None,
    };
    match token {
        Some(t) => {
            let s = token_owner(t.as_str());
            Authed::Ask(Auth::Token(t), s)
        },
        None => Authed::Refused {
            status: UNAUTHORIZED,
            why: "missing Bearer token".to_owned(),
        },
    }
}

impl Auth {
    /// What the rows of the awaited statement lead to.
    pub open spec fn reads(self, rows: Seq<Vec<db::Value>>, now: Timestamp, r: Authed) -> bool {
        match self {
            Auth::Token(token) => if rows.len() == 0 {
                r.refuses(UNAUTHORIZED, "invalid token"@)
            } else if db::text_at(rows[0]@, 0) is Some {
                &&& r matches Authed::Ask(a, s)
                &&& a == Auth::User(token)
                &&& db::finds_user(s, db::text_at(rows[0]@, 0)->0@)
            } else {
                r.refuses(INTERNAL_SERVER_ERROR, "malformed row"@)
            },
            Auth::User(token) => if rows.len() == 0 {
                r.refuses(UNAUTHORIZED, "unknown user"@)
            } else if db::has_stored_user_cells(rows[0]@) {
                &&& r matches Authed::Known { user, token: t }
                &&& t == token
                &&& db::is_stored_user(rows[0]@, now, user)
            } else {
                r.refuses(INTERNAL_SERVER_ERROR, "malformed row"@)
            },
        }
    }

    pub open spec fn leads_to(self, event: Event, now: Timestamp, r: Authed) -> bool {
        match event {
            Event::Rows(rows) => self.reads(rows@, now, r),
            Event::Failed(e) => r.refuses(INTERNAL_SERVER_ERROR, e@),
            _ => r.refuses(INTERNAL_SERVER_ERROR, "unexpected event"@),
        }
    }

    /// Goes on with the lookup.
    pub fn next(self, event: Event, now: Timestamp) -> (r: Authed)
        ensures
            self.leads_to(event, now, r),
    {
        let rows = match event {
            Event::Rows(rows) => rows,
            Event::Failed(e) => {
                return Authed::Refused { status: INTERNAL_SERVER_ERROR, why: e };
            },
            _ => {
                return Authed::Refused {
                    status: INTERNAL_SERVER_ERROR,
                    why: "unexpected event".to_owned(),
                };
            },
        };
        match self {
            Auth::Token(token) => {
                if rows.len() == 0 {
                    return Authed::Refused {
                        status: UNAUTHORIZED,
                        why: "invalid token".to_owned(),
                    };
                }
                match db::text_cell(&rows[0], 0) {
                    Some(user_id) => {
                        let s = db::user_by_id(user_id.as_str());
                        Authed::Ask(Auth::User(token), s)
                    },
                    None => Authed::Refused {
                        status: INTERNAL_SERVER_ERROR,
                        why: "malformed row".to_owned(),
                    },
                }
            },
            Auth::User(token) => {
                if rows.len() == 0 {
                    return Authed::Refused {
                        status: UNAUTHORIZED,
                        why: "unknown user".to_owned(),
                    };
                }
                match db::map_user(&rows[0], now) {
                    Some(user) => Authed::Known { user, token },
                    None => Authed::Refused {
                        status: INTERNAL_SERVER_ERROR,
                        why: "malformed row".to_owned(),
                    },
                }
            },
        }
    }
}

// ---------------------------------------------------------------------------
// Registration
// ---------------------------------------------------------------------------

/// How far a registration has come.
#[derive(Debug)]
pub enum Register {
    /// The password is hashed, and the name is looked up,
    Checking(RegisterRequest, String),
    /// then the account is stored,
    Storing { id: Uuid, token: String, stamp: String },
    /// then its first token,
    Opening { id: Uuid, token: String },
    /// then the servers are listed,
    Listing { id: Uuid, token: String },
    /// then the account joins one after another, the next being at `at`,
    Joining { id: Uuid, token: String, servers: Vec<String>, at: usize },
    /// then it is read back.
    Reloading { token: String },
}

/// What follows the hashing of the password: the name is looked up.
pub open spec fn checks_name(req: RegisterRequest, hashed: Result<String, String>, r: Step) -> bool {
    match hashed {
        Ok(hash) => {
            &&& r.queries("SELECT id FROM users WHERE name=?1"@, seq![db::text_value(req.name@)])
            &&& r.state() == Stage::Register(Register::Checking(req, hash))
        },
        Err(e) => r.refuses(INTERNAL_SERVER_ERROR, e@),
    }
}

/// Goes on with a registration once it is known what came of the hashing of the password.
pub fn check_name(req: RegisterRequest, hashed: Result<String, String>) -> (r: Step)
    ensures
        checks_name(req, hashed, r),
        r.wf(),
{
    match hashed {
        Ok(hash) => {
            let s = db::statement1(
                "SELECT id FROM users WHERE name=?1",
                db::text_arg(req.name.as_str()),
            );
            Step::Ask(Stage::Register(Register::Checking(req, hash)), Action::Query(s))
        },
        Err(e) => refuse(INTERNAL_SERVER_ERROR, e.as_str()),
    }
}

/// The first step of `register`.
pub open spec fn begins_register(allow_registration: bool, req: RegisterRequest, r: Step) -> bool {
    if !allow_registration {
        r.refuses(FORBIDDEN, "registration disabled"@)
    } else if text::is_blank(req.name@) || text::utf8_len(req.password@) < 4 {
        r.refuses(BAD_REQUEST, "name/password too short"@)
    } else if text::utf8_len(req.name@) > 32 {
        r.refuses(BAD_REQUEST, "name too long"@)
    } else {
        exists|hashed: Result<String, String>|
            passwords::hashes(hashed, req.password@) && #[trigger] checks_name(req, hashed, r)
    }
}

/// Starts a registration.
pub fn register(allow_registration: bool, req: RegisterRequest) -> (r: Step)
    ensures
        begins_register(allow_registration, req, r),
        r.wf(),
{
    if !allow_registration {
        return refuse(FORBIDDEN, "registration disabled");
    }
    if text::blank(req.name.as_str()) || req.password.as_str().len() < 4 {
        return refuse(BAD_REQUEST, "name/password too short");
    }
    if req.name.as_str().len() > 32 {
        return refuse(BAD_REQUEST, "name too long");
    }
    let hashed = passwords::hash_password(req.password.as_str());
    check_name(req, hashed)
}

/// A statement stores a token of a user.
pub open spec fn stores_token(r: Step, token: Seq<char>, user: Uuid, stamp: Seq<char>) -> bool {
    r.executes(
        "INSERT INTO tokens (token, user_id, created_at) VALUES (?1,?2,?3)"@,
        seq![db::text_value(token), db::id_value(user), db::text_value(stamp)],
    )
}

fn store_token(token: &str, user: Uuid, stamp: &str) -> (r: db::Statement)
    ensures
        r.is(
            "INSERT INTO tokens (token, user_id, created_at) VALUES (?1,?2,?3)"@,
            seq![db::text_value(token@), db::id_value(user), db::text_value(stamp@)],
        ),
{
    db::statement3(
        "INSERT INTO tokens (token, user_id, created_at) VALUES (?1,?2,?3)",
        db::text_arg(token),
        db::id_arg(user),
        db::text_arg(stamp),
    )
}

impl Register {
    /// The account joins the server at `at`, or is read back where there are no more.
    pub open spec fn joins(r: Step, id: Uuid, token: String, servers: Seq<String>, at: int) -> bool {
        if at < servers.len() {
            &&& r.executes(
                "INSERT OR IGNORE INTO server_members (server_id, user_id) VALUES (?1,?2)"@,
                seq![db::text_value(servers[at]@), db::id_value(id)],
            )
            &&& r.state() matches Stage::Register(
                Register::Joining { id: i, token: t, servers: s, at: a },
            )
            &&& i == id
            &&& t == token
            &&& s@ == servers
            &&& a == at + 1
        } else {
            &&& r.looks_up_user(id::hyphenated_text(id.0))
            &&& r.state() == Stage::Register(Register::Reloading { token })
        }
    }

    pub open spec fn leads_to(self, event: Event, draw: Draw, r: Step) -> bool {
        match (self, event) {
            (Register::Checking(req, hash), Event::Rows(rows)) => if rows@.len() > 0 {
                r.refuses(CONFLICT, "name taken"@)
            } else {
                &&& r.executes(
                    "INSERT INTO users (id, name, display_name, password_hash, bot, created_at) VALUES (?1,?2,?3,?4,0,?5)"@,
                    seq![
                        db::id_value(draw.id),
                        db::text_value(req.name@),
                        db::optional_value(db::optional_text(req.display_name)),
                        db::text_value(hash@),
                        db::text_value(draw.stamp@),
                    ],
                )
                &&& r.state() matches Stage::Register(Register::Storing { id, token, stamp })
                &&& id == draw.id
                &&& token@ == id::token_of(draw.second.0)
                &&& stamp == draw.stamp
            },
            (Register::Storing { id, token, stamp }, Event::Done) => {
                &&& stores_token(r, token@, id, stamp@)
                &&& r.state() == Stage::Register(Register::Opening { id, token })
            },
            (Register::Opening { id, token }, Event::Done) => {
                &&& r.queries("SELECT id FROM servers"@, Seq::empty())
                &&& r.state() == Stage::Register(Register::Listing { id, token })
            },
            (Register::Listing { id, token }, Event::Rows(rows)) => if db::all_text_rows(rows@) {
                Register::joins(r, id, token, db::first_texts(rows@), 0)
            } else {
                r.stumbles()
            },
            // A server that cannot be joined is passed over.
            (Register::Joining { id, token, servers, at }, _) => Register::joins(
                r,
                id,
                token,
                servers@,
                at as int,
            ),
            (Register::Reloading { token }, Event::Rows(rows)) => if rows@.len() == 0 {
                r.refuses(INTERNAL_SERVER_ERROR, "user missing"@)
            } else if db::has_stored_user_cells(rows@[0]@) {
                &&& r matches Step::Done(f)
                &&& f.event is None
                &&& f.reply.status == CREATED
                &&& f.reply.body matches Body::Auth(a)
                &&& a.token == token
                &&& db::is_stored_user(rows@[0]@, draw.now, a.user)
            } else {
                r.stumbles()
            },
            _ => r.fails(event),
        }
    }

    fn join(id: Uuid, token: String, servers: Vec<String>, at: usize) -> (r: Step)
        ensures
            Register::joins(r, id, token, servers@, at as int),
    {
        if at < servers.len() {
            let s = db::statement2(
                "INSERT OR IGNORE INTO server_members (server_id, user_id) VALUES (?1,?2)",
                db::text_arg(servers[at].as_str()),
                db::id_arg(id),
            );
            Step::Ask(
                Stage::Register(Register::Joining { id, token, servers, at: at + 1 }),
                Action::Execute(s),
            )
        } else {
            let user_id = id.text();
            let s = db::user_by_id(user_id.as_str());
            Step::Ask(Stage::Register(Register::Reloading { token }), Action::Query(s))
        }
    }

    /// Goes on with a registration.
    pub fn next(self, event: Event, draw: Draw) -> (r: Step)
        ensures
            self.leads_to(event, draw, r),
            r.wf(),
    {
        match (self, event) {
            (Register::Checking(req, hash), Event::Rows(rows)) => {
                if rows.len() > 0 {
                    return refuse(CONFLICT, "name taken");
                }
                let s = db::statement5(
                    "INSERT INTO users (id, name, display_name, password_hash, bot, created_at) VALUES (?1,?2,?3,?4,0,?5)",
                    db::id_arg(draw.id),
                    db::text_arg(req.name.as_str()),
                    db::optional_arg(&req.display_name),
                    db::text_arg(hash.as_str()),
                    db::text_arg(draw.stamp.as_str()),
                );
                let token = id::token_text(draw.second);
                Step::Ask(
                    Stage::Register(Register::Storing { id: draw.id, token, stamp: draw.stamp }),
                    Action::Execute(s),
                )
            },
            (Register::Storing { id, token, stamp }, Event::Done) => {
                let s = store_token(token.as_str(), id, stamp.as_str());
                Step::Ask(
                    Stage::Register(Register::Opening { id, token }),
                    Action::Execute(s),
                )
            },
            (Register::Opening { id, token }, Event::Done) => {
                let s = db::statement0("SELECT id FROM servers");
                Step::Ask(Stage::Register(Register::Listing { id, token }), Action::Query(s))
            },
            (Register::Listing { id, token }, Event::Rows(rows)) => match db::map_texts(&rows) {
                Some(servers) => Register::join(id, token, servers, 0),
                None => stumble(),
            },
            (Register::Joining { id, token, servers, at }, _) => Register::join(
                id,
                token,
                servers,
                at,
            ),
            (Register::Reloading { token }, Event::Rows(rows)) => {
                if rows.len() == 0 {
                    return refuse(INTERNAL_SERVER_ERROR, "user missing");
                }
                match db::map_user(&rows[0], draw.now) {
                    Some(user) => reply(CREATED, Body::Auth(AuthResponse { token, user })),
                    None => stumble(),
                }
            },
            (_, event) => fail(event),
        }
    }
}

// ---------------------------------------------------------------------------
// Login and logout
// ---------------------------------------------------------------------------

/// How far a login has come.
#[derive(Debug)]
pub enum Login {
    /// The account is being looked up,
    Finding { password: String },
    /// then, where the password matches its hash, a new token is stored.
    Opening { user: User, token: String },
}

/// The first step of `login`.
pub open spec fn begins_login(req: LoginRequest, r: Step) -> bool {
    &&& r matches Step::Ask(_, Action::Query(s)) && db::finds_login(s, req.name@)
    &&& r.state() == Stage::Login(Login::Finding { password: req.password })
}

/// Starts a login.
pub fn login(req: LoginRequest) -> (r: Step)
    ensures
        begins_login(req, r),
        r.wf(),
{
    let s = db::user_by_name(req.name.as_str());
    Step::Ask(Stage::Login(Login::Finding { password: req.password }), Action::Query(s))
}

impl Login {
    /// A user whose password is right gets a new token.
    pub open spec fn opens(user: User, right: bool, draw: Draw, r: Step) -> bool {
        if right {
            &&& r.state() matches Stage::Login(Login::Opening { user: same, token })
            &&& same == user
            &&& token@ == id::token_of(draw.second.0)
            &&& stores_token(r, token@, user.id, draw.stamp@)
        } else {
            r.refuses(UNAUTHORIZED, "invalid credentials"@)
        }
    }

    /// Goes on with a login once it is known whether the password is right.
    pub fn open(user: User, right: bool, draw: Draw) -> (r: Step)
        ensures
            Login::opens(user, right, draw, r),
            r.wf(),
    {
        if right {
            let token = id::token_text(draw.second);
            let s = store_token(token.as_str(), user.id, draw.stamp.as_str());
            Step::Ask(Stage::Login(Login::Opening { user, token }), Action::Execute(s))
        } else {
            refuse(UNAUTHORIZED, "invalid credentials")
        }
    }

    /// A session is opened for the user of a row if and only if the password matches the
    /// hash there.
    pub open spec fn leads_to(self, event: Event, draw: Draw, r: Step) -> bool {
        match (self, event) {
            (Login::Finding { password }, Event::Rows(rows)) => if rows@.len() == 0 {
                r.refuses(UNAUTHORIZED, "invalid credentials"@)
            } else if !db::has_login_cells(rows@[0]@) {
                r.stumbles()
            } else if id::parsed_uuid(db::text_at(rows@[0]@, 0)->0@) is None {
                r.refuses(
                    INTERNAL_SERVER_ERROR,
                    "Invalid column type Text at index: 0, name: uuid"@,
                )
            } else {
                let right = passwords::accepts(
                    db::text_at(rows@[0]@, 5)->0@,
                    password@,
                );
                exists|user: User| #[trigger]
                    db::is_user(rows@[0]@, draw.now, user) && user.avatar_url is None
                        && Login::opens(user, right, draw, r)
            },
            (Login::Opening { user, token }, Event::Done) => r.replies(
                OK,
                Body::Auth(AuthResponse { token, user }),
            ),
            _ => r.fails(event),
        }
    }

    /// Goes on with a login.
    pub fn next(self, event: Event, draw: Draw) -> (r: Step)
        ensures
            self.leads_to(event, draw, r),
            r.wf(),
    {
        match (self, event) {
            (Login::Finding { password }, Event::Rows(rows)) => {
                if rows.len() == 0 {
                    return refuse(UNAUTHORIZED, "invalid credentials");
                }
                match db::map_login(&rows[0], draw.now) {
                    Ok((user, hash)) => {
                        let right = passwords::check_password(hash.as_str(), password.as_str());
                        Login::open(user, right, draw)
                    },
                    Err(e) => refuse(INTERNAL_SERVER_ERROR, e.as_str()),
                }
            },
            (Login::Opening { user, token }, Event::Done) => reply(
                OK,
                Body::Auth(AuthResponse { token, user }),
            ),
            (_, event) => fail(event),
        }
    }
}

/// The first step of `logout`.
pub open spec fn begins_logout(token: String, r: Step) -> bool {
    &&& r.executes("DELETE FROM tokens WHERE token=?1"@, seq![db::text_value(token@)])
    &&& r.state() == Stage::Logout
}

/// Starts to end the session that the token stands for.
pub fn logout(token: String) -> (r: Step)
    ensures
        begins_logout(token, r),
        r.wf(),
{
    let s = db::statement1("DELETE FROM tokens WHERE token=?1", db::text_arg(token.as_str()));
    Step::Ask(Stage::Logout, Action::Execute(s))
}

/// What follows a statement after which nothing is left to say.
pub open spec fn ends_empty(event: Event, r: Step) -> bool {
    match event {
        Event::Done => r.replies(NO_CONTENT, Body::Empty),
        _ => r.fails(event),
    }
}

/// Ends a request with nothing to say.
pub fn end_empty(event: Event) -> (r: Step)
    ensures
        ends_empty(event, r),
{
    match event {
        Event::Done => reply(NO_CONTENT, Body::Empty),
        event => fail(event),
    }
}

// ---------------------------------------------------------------------------
// The profile
// ---------------------------------------------------------------------------

/// How far a change of the profile of `id` has come.
#[derive(Debug)]
pub enum UpdateMe {
    /// The display name is being stored,
    Naming { id: Uuid, token: String, password: Option<String> },
    /// then the password is hashed, and the hash is stored,
    Storing { id: Uuid, token: String },
    /// then the other sessions are ended,
    Closing { id: Uuid },
    /// then the account is read back.
    Reloading,
}

/// What a new display name is stored as: trimmed, and nothing where it is blank.
pub open spec fn stored_display_name(name: Seq<char>) -> Option<Seq<char>> {
    if text::is_blank(name) {
        None
    } else {
        Some(text::trimmed(name))
    }
}

/// The account is read back.
pub open spec fn reloads(r: Step, id: Uuid, state: Stage) -> bool {
    r.looks_up_user(id::hyphenated_text(id.0)) && r.state() == state
}

/// The account that was read back is the reply.
pub open spec fn reloaded(event: Event, now: Timestamp, r: Step) -> bool {
    match event {
        Event::Rows(rows) => if rows@.len() == 0 {
            r.refuses(INTERNAL_SERVER_ERROR, "user missing"@)
        } else if db::has_stored_user_cells(rows@[0]@) {
            r.replies_user(OK, rows@[0]@, now)
        } else {
            r.stumbles()
        },
        _ => r.fails(event),
    }
}

fn reload(id: Uuid, state: Stage) -> (r: Step)
    ensures
        reloads(r, id, state),
{
    let user_id = id.text();
    let s = db::user_by_id(user_id.as_str());
    Step::Ask(state, Action::Query(s))
}

fn end_reload(event: Event, now: Timestamp) -> (r: Step)
    ensures
        reloaded(event, now, r),
{
    match event {
        Event::Rows(rows) => {
            if rows.len() == 0 {
                return refuse(INTERNAL_SERVER_ERROR, "user missing");
            }
            match db::map_user(&rows[0], now) {
                Some(user) => reply(OK, Body::User(user)),
                None => stumble(),
            }
        },
        event => fail(event),
    }
}

/// The first step of `update_me`.
pub open spec fn begins_update_me(id: Uuid, token: String, req: UpdateMeRequest, r: Step) -> bool {
    match req.display_name {
        Some(name) => if text::utf8_len(name@) > 64 {
            r.refuses(BAD_REQUEST, "display name too long"@)
        } else {
            &&& r.executes(
                "UPDATE users SET display_name=?1 WHERE id=?2"@,
                seq![db::optional_value(stored_display_name(name@)), db::id_value(id)],
            )
            &&& r.state() == Stage::UpdateMe(
                UpdateMe::Naming { id, token, password: req.password },
            )
        },
        None => UpdateMe::takes_password(r, id, token, req.password),
    }
}

/// Starts to change the profile of the user with the identifier `id`, whose session has
/// the token `token`.
pub fn update_me(id: Uuid, token: String, req: UpdateMeRequest) -> (r: Step)
    ensures
        begins_update_me(id, token, req, r),
        r.wf(),
{
    match req.display_name {
        Some(name) => {
            if name.as_str().len() > 64 {
                return refuse(BAD_REQUEST, "display name too long");
            }
            let stored = if text::blank(name.as_str()) {
                None
            } else {
                Some(text::trim(name.as_str()))
            };
            let s = db::statement2(
                "UPDATE users SET display_name=?1 WHERE id=?2",
                db::optional_arg(&stored),
                db::id_arg(id),
            );
            Step::Ask(
                Stage::UpdateMe(UpdateMe::Naming { id, token, password: req.password }),
                Action::Execute(s),
            )
        },
        None => UpdateMe::take_password(id, token, req.password),
    }
}

impl UpdateMe {
    /// What follows the hashing of a new password: the hash is stored.
    pub open spec fn stores_password(
        id: Uuid,
        token: String,
        hashed: Result<String, String>,
        r: Step,
    ) -> bool {
        match hashed {
            Ok(hash) => {
                &&& r.executes(
                    "UPDATE users SET password_hash=?1 WHERE id=?2"@,
                    seq![db::text_value(hash@), db::id_value(id)],
                )
                &&& r.state() == Stage::UpdateMe(UpdateMe::Storing { id, token })
            },
            Err(e) => r.refuses(INTERNAL_SERVER_ERROR, e@),
        }
    }

    /// Goes on with a new password once it is known what came of its hashing.
    pub fn store_password(id: Uuid, token: String, hashed: Result<String, String>) -> (r: Step)
        ensures
            UpdateMe::stores_password(id, token, hashed, r),
            r.wf(),
    {
        match hashed {
            Ok(hash) => {
                let s = db::statement2(
                    "UPDATE users SET password_hash=?1 WHERE id=?2",
                    db::text_arg(hash.as_str()),
                    db::id_arg(id),
                );
                Step::Ask(Stage::UpdateMe(UpdateMe::Storing { id, token }), Action::Execute(s))
            },
            Err(e) => refuse(INTERNAL_SERVER_ERROR, e.as_str()),
        }
    }

    /// A new password is hashed; where there is none, the account is read back.
    pub open spec fn takes_password(
        r: Step,
        id: Uuid,
        token: String,
        password: Option<String>,
    ) -> bool {
        match password {
            Some(p) => if p@.len() < 4 {
                r.refuses(BAD_REQUEST, "password too short"@)
            } else {
                exists|hashed: Result<String, String>|
                    passwords::hashes(hashed, p@) && #[trigger] UpdateMe::stores_password(
                        id,
                        token,
                        hashed,
                        r,
                    )
            },
            None => reloads(r, id, Stage::UpdateMe(UpdateMe::Reloading)),
        }
    }

    fn take_password(id: Uuid, token: String, password: Option<String>) -> (r: Step)
        ensures
            UpdateMe::takes_password(r, id, token, password),
    {
        match password {
            Some(p) => {
                let chars = text::chars_of(p.as_str());
                if chars.len() < 4 {
                    return refuse(BAD_REQUEST, "password too short");
                }
                let hashed = passwords::hash_password(p.as_str());
                UpdateMe::store_password(id, token, hashed)
            },
            None => reload(id, Stage::UpdateMe(UpdateMe::Reloading)),
        }
    }

    pub open spec fn leads_to(self, event: Event, draw: Draw, r: Step) -> bool {
        match (self, event) {
            (UpdateMe::Naming { id, token, password }, Event::Done) => UpdateMe::takes_password(
                r,
                id,
                token,
                password,
            ),
            (UpdateMe::Storing { id, token }, Event::Done) => {
                &&& r.executes(
                    "DELETE FROM tokens WHERE user_id=?1 AND token!=?2"@,
                    seq![db::id_value(id), db::text_value(token@)],
                )
                &&& r.state() == Stage::UpdateMe(UpdateMe::Closing { id })
            },
            (UpdateMe::Closing { id }, Event::Done) => reloads(
                r,
                id,
                Stage::UpdateMe(UpdateMe::Reloading),
            ),
            (UpdateMe::Reloading, event) => reloaded(event, draw.now, r),
            _ => r.fails(event),
        }
    }

    /// Goes on with a change of a profile.
    pub fn next(self, event: Event, draw: Draw) -> (r: Step)
        ensures
            self.leads_to(event, draw, r),
            r.wf(),
    {
        match (self, event) {
            (UpdateMe::Naming { id, token, password }, Event::Done) => UpdateMe::take_password(
                id,
                token,
                password,
            ),
            (UpdateMe::Storing { id, token }, Event::Done) => {
                let s = db::statement2(
                    "DELETE FROM tokens WHERE user_id=?1 AND token!=?2",
                    db::id_arg(id),
                    db::text_arg(token.as_str()),
                );
                Step::Ask(Stage::UpdateMe(UpdateMe::Closing { id }), Action::Execute(s))
            },
            (UpdateMe::Closing { id }, Event::Done) => reload(
                id,
                Stage::UpdateMe(UpdateMe::Reloading),
            ),
            (UpdateMe::Reloading, event) => end_reload(event, draw.now),
            (_, event) => fail(event),
        }
    }
}

// ---------------------------------------------------------------------------
// The image
// ---------------------------------------------------------------------------

/// The type of an image, by its first bytes.
pub open spec fn avatar_mime(bytes: Seq<u8>) -> Option<Seq<char>> {
    if bytes.len() >= 4 && bytes.take(4) == seq![0x89u8, 0x50, 0x4e, 0x47] {
        Some("image/png"@)
    } else if bytes.len() >= 3 && bytes.take(3) == seq![0xffu8, 0xd8, 0xff] {
        Some("image/jpeg"@)
    } else if bytes.len() >= 4 && bytes.take(4) == seq![0x47u8, 0x49, 0x46, 0x38] {
        Some("image/gif"@)
    } else if bytes.len() > 12 && bytes.take(4) == seq![0x52u8, 0x49, 0x46, 0x46]
        && bytes.subrange(8, 12) == seq![0x57u8, 0x45, 0x42, 0x50] {
        Some("image/webp"@)
    } else {
        None
    }
}

fn has_at(bytes: &[u8], at: usize, a: u8, b: u8, c: u8, d: u8) -> (r: bool)
    requires
        at + 4 <= bytes@.len(),
    ensures
        r == (bytes@.subrange(at as int, at + 4) == seq![a, b, c, d]),
{
    let r = bytes[at] == a && bytes[at + 1] == b && bytes[at + 2] == c && bytes[at + 3] == d;
    proof {
        let s = bytes@.subrange(at as int, at + 4);
        if r {
            assert(s =~= seq![a, b, c, d]);
        } else {
            assert(s[0] == bytes@[at as int] && s[1] == bytes@[at + 1] && s[2] == bytes@[at + 2]
                && s[3] == bytes@[at + 3]);
            let t = seq![a, b, c, d];
            assert(t[0] == a && t[1] == b && t[2] == c && t[3] == d);
        }
    }
    r
}

pub fn sniff_avatar_mime(bytes: &[u8]) -> (r: Option<&'static str>)
    ensures
        match r {
            Some(mime) => avatar_mime(bytes@) == Some(mime@),
            None => avatar_mime(bytes@) is None,
        },
{
    let n: usize = bytes.len();
    proof {
        if n >= 4 {
            assert(bytes@.take(4) =~= bytes@.subrange(0, 4));
        }
        if n >= 3 {
            let t = seq![0xffu8, 0xd8, 0xff];
            let s = bytes@.take(3);
            assert(t[0] == 0xff && t[1] == 0xd8 && t[2] == 0xff);
            assert(s[0] == bytes@[0] && s[1] == bytes@[1] && s[2] == bytes@[2]);
            if bytes@[0] == 0xff && bytes@[1] == 0xd8 && bytes@[2] == 0xff {
                assert(s =~= t);
            }
        }
    }
    if n >= 4 && has_at(bytes, 0, 0x89, 0x50, 0x4e, 0x47) {
        Some("image/png")
    } else if n >= 3 && bytes[0] == 0xff && bytes[1] == 0xd8 && bytes[2] == 0xff {
        Some("image/jpeg")
    } else if n >= 4 && has_at(bytes, 0, 0x47, 0x49, 0x46, 0x38) {
        Some("image/gif")
    } else if n > 12 && has_at(bytes, 0, 0x52, 0x49, 0x46, 0x46) && has_at(
        bytes,
        8,
        0x57,
        0x45,
        0x42,
        0x50,
    ) {
        Some("image/webp")
    } else {
        None
    }
}

/// Where the image of a user is kept.
pub open spec fn avatar_file(data_dir: Seq<char>, user: Uuid) -> Seq<char> {
    text::path_below(text::path_below(data_dir, "avatars"@), id::hyphenated_text(user.0))
}

pub fn avatar_path(data_dir: &str, user: Uuid) -> (r: String)
    ensures
        r@ == avatar_file(data_dir@, user),
{
    let user_id = user.text();
    let dir = text::join_path(data_dir, "avatars");
    text::join_path(dir.as_str(), user_id.as_str())
}

/// The most bytes that an image may have: 1 MiB.
pub const MAX_AVATAR: usize = 1_048_576;

/// How far the storing of an image of `id` has come.
#[derive(Debug)]
pub enum SetAvatar {
    /// The file is being written,
    Writing { id: Uuid },
    /// then the mark that there is one,
    Marking { id: Uuid },
    /// then the account is read back.
    Reloading,
}

/// What an uploaded image is answered, by its text in base64.
pub open spec fn takes_avatar(r: Step, data_dir: Seq<char>, user: Uuid, data: Seq<char>) -> bool {
    match codec::base64_bytes(text::trimmed(data)) {
        Some(bytes) => if bytes.len() == 0 || bytes.len() > MAX_AVATAR {
            r.refuses(BAD_REQUEST, "image must be 1 byte–1 MiB"@)
        } else if avatar_mime(bytes) is None {
            r.refuses(BAD_REQUEST, "image must be PNG, JPEG, GIF or WebP"@)
        } else {
            &&& r matches Step::Ask(state, Action::WriteFile { path, bytes: b })
            &&& state == Stage::SetAvatar(SetAvatar::Writing { id: user })
            &&& path@ == avatar_file(data_dir, user)
            &&& b@ == bytes
        },
        None => r.refuses(BAD_REQUEST, "invalid base64"@),
    }
}

/// Starts to store an image.
pub fn set_avatar(data_dir: &str, user: Uuid, req: SetAvatarRequest) -> (r: Step)
    ensures
        takes_avatar(r, data_dir@, user, req.data_base64@),
{
    let data = text::trim(req.data_base64.as_str());
    match codec::decode_base64(data.as_str()) {
        Some(bytes) => {
            if bytes.len() == 0 || bytes.len() > MAX_AVATAR {
                return refuse(BAD_REQUEST, "image must be 1 byte–1 MiB");
            }
            if sniff_avatar_mime(bytes.as_slice()).is_none() {
                return refuse(BAD_REQUEST, "image must be PNG, JPEG, GIF or WebP");
            }
            let path = avatar_path(data_dir, user);
            Step::Ask(
                Stage::SetAvatar(SetAvatar::Writing { id: user }),
                Action::WriteFile { path, bytes },
            )
        },
        None => refuse(BAD_REQUEST, "invalid base64"),
    }
}

impl SetAvatar {
    pub open spec fn leads_to(self, event: Event, draw: Draw, r: Step) -> bool {
        match (self, event) {
            (SetAvatar::Writing { id }, Event::Done) => {
                &&& r.executes(
                    "UPDATE users SET avatar=1 WHERE id=?1"@,
                    seq![db::id_value(id)],
                )
                &&& r.state() == Stage::SetAvatar(SetAvatar::Marking { id })
            },
            (SetAvatar::Marking { id }, Event::Done) => reloads(
                r,
                id,
                Stage::SetAvatar(SetAvatar::Reloading),
            ),
            (SetAvatar::Reloading, event) => reloaded(event, draw.now, r),
            _ => r.fails(event),
        }
    }

    /// Goes on with the storing of an image.
    pub fn next(self, event: Event, draw: Draw) -> (r: Step)
        ensures
            self.leads_to(event, draw, r),
            r.wf(),
    {
        match (self, event) {
            (SetAvatar::Writing { id }, Event::Done) => {
                let s = db::statement1(
                    "UPDATE users SET avatar=1 WHERE id=?1",
                    db::id_arg(id),
                );
                Step::Ask(Stage::SetAvatar(SetAvatar::Marking { id }), Action::Execute(s))
            },
            (SetAvatar::Marking { id }, Event::Done) => reload(
                id,
                Stage::SetAvatar(SetAvatar::Reloading),
            ),
            (SetAvatar::Reloading, event) => end_reload(event, draw.now),
            (_, event) => fail(event),
        }
    }
}

/// The first step of `delete_avatar`.
pub open spec fn begins_delete_avatar(data_dir: Seq<char>, user: Uuid, r: Step) -> bool {
    r matches Step::Ask(state, Action::RemoveFile(path)) && state == Stage::DeleteAvatar(user)
        && path@ == avatar_file(data_dir, user)
}

/// Starts to remove the image of a user.
pub fn delete_avatar(data_dir: &str, user: Uuid) -> (r: Step)
    ensures
        begins_delete_avatar(data_dir@, user, r),
        r.wf(),
{
    let path = avatar_path(data_dir, user);
    Step::Ask(Stage::DeleteAvatar(user), Action::RemoveFile(path))
}

/// Whatever came of the removal, the mark goes.
pub open spec fn unmarks_avatar(user: Uuid, r: Step) -> bool {
    &&& r.executes("UPDATE users SET avatar=0 WHERE id=?1"@, seq![db::id_value(user)])
    &&& r.state() == Stage::UnmarkAvatar
}

pub fn unmark_avatar(user: Uuid) -> (r: Step)
    ensures
        unmarks_avatar(user, r),
{
    let s = db::statement1("UPDATE users SET avatar=0 WHERE id=?1", db::id_arg(user));
    Step::Ask(Stage::UnmarkAvatar, Action::Execute(s))
}

/// The first step of `get_avatar`.
pub open spec fn begins_get_avatar(data_dir: Seq<char>, user: Uuid, r: Step) -> bool {
    r matches Step::Ask(state, Action::ReadFile(path)) && state == Stage::GetAvatar && path@
        == avatar_file(data_dir, user)
}

/// Starts to serve the image of a user, to anyone.
pub fn get_avatar(data_dir: &str, user: Uuid) -> (r: Step)
    ensures
        begins_get_avatar(data_dir@, user, r),
        r.wf(),
{
    let path = avatar_path(data_dir, user);
    Step::Ask(Stage::GetAvatar, Action::ReadFile(path))
}

/// How the bytes of an image are served: with their type, to be kept for a day. Without
/// bytes there is no image.
pub open spec fn serves_avatar(event: Event, r: Step) -> bool {
    match event {
        Event::Bytes(bytes) => {
            &&& r matches Step::Done(f)
            &&& f.event is None
            &&& f.reply.status == OK
            &&& f.reply.body matches Body::Image { mime, cache_control, bytes: b }
            &&& mime@ == (match avatar_mime(bytes@) {
                Some(m) => m,
                None => "application/octet-stream"@,
            })
            &&& cache_control@ == "public, max-age=86400"@
            &&& b == bytes
        },
        _ => r.refuses(NOT_FOUND, "no avatar"@),
    }
}

pub fn serve_avatar(event: Event) -> (r: Step)
    ensures
        serves_avatar(event, r),
{
    match event {
        Event::Bytes(bytes) => {
            let mime = match sniff_avatar_mime(bytes.as_slice()) {
                Some(m) => m.to_owned(),
                None => "application/octet-stream".to_owned(),
            };
            reply(
                OK,
                Body::Image { mime, cache_control: "public, max-age=86400".to_owned(), bytes },
            )
        },
        _ => refuse(NOT_FOUND, "no avatar"),
    }
}

// ---------------------------------------------------------------------------
// Laws
// ---------------------------------------------------------------------------

/// A new password is stored as a hash that it matches, and ends every session of the user
/// but the one in which it was set.
pub proof fn law_a_new_password_ends_other_sessions(
    id: Uuid,
    token: String,
    password: String,
    draw: Draw,
    storing: Step,
    closing: Step,
) -> (hash: Seq<char>)
    requires
        password@.len() >= 4,
        vstd::utf8::encode_utf8(password@).len() <= 0xffff_ffff,
        UpdateMe::takes_password(storing, id, token, Some(password)),
        storing.state() matches Stage::UpdateMe(s) && s.leads_to(Event::Done, draw, closing),
    ensures
        passwords::accepts(hash, password@),
        storing.executes(
            "UPDATE users SET password_hash=?1 WHERE id=?2"@,
            seq![db::text_value(hash), db::id_value(id)],
        ),
        closing.executes(
            "DELETE FROM tokens WHERE user_id=?1 AND token!=?2"@,
            seq![db::id_value(id), db::text_value(token@)],
        ),
{
    let hashed = choose|hashed: Result<String, String>|
        passwords::hashes(hashed, password@) && #[trigger] UpdateMe::stores_password(
            id,
            token,
            hashed,
            storing,
        );
    hashed->Ok_0@
}

/// Whoever registered can log in with the same password: the hash that is stored is matched
/// by it, and a login against that hash opens a session exactly where the password matches.
pub proof fn law_the_registered_password_opens_a_session(
    req: RegisterRequest,
    checking: Step,
    names: Vec<Vec<db::Value>>,
    storing: Step,
    password: String,
    rows: Vec<Vec<db::Value>>,
    draws: (Draw, Draw),
    r: Step,
) -> (hash: Seq<char>)
    requires
        !text::is_blank(req.name@),
        text::utf8_len(req.name@) <= 32,
        text::utf8_len(req.password@) >= 4,
        vstd::utf8::encode_utf8(req.password@).len() <= 0xffff_ffff,
        begins_register(true, req, checking),
        names@.len() == 0,
        checking.state() matches Stage::Register(s) && s.leads_to(
            Event::Rows(names),
            draws.0,
            storing,
        ),
        rows@.len() > 0,
        db::has_login_cells(rows@[0]@),
        id::parsed_uuid(db::text_at(rows@[0]@, 0)->0@) is Some,
        ({
            &&& storing matches Step::Ask(_, Action::Execute(s))
            &&& db::value_views(s.args@)[3] == db::text_value(db::text_at(rows@[0]@, 5)->0@)
        }),
        (Login::Finding { password }).leads_to(Event::Rows(rows), draws.1, r),
    ensures
        checking is Ask,
        hash == db::text_at(rows@[0]@, 5)->0@,
        passwords::accepts(hash, req.password@),
        password@ == req.password@ ==> r is Ask,
        r is Ask <==> passwords::accepts(hash, password@),
        r is Done <==> r.refuses(UNAUTHORIZED, "invalid credentials"@),
        r is Ask ==> (r.state() matches Stage::Login(Login::Opening { .. })),
{
    let hashed = choose|hashed: Result<String, String>|
        passwords::hashes(hashed, req.password@) && #[trigger] checks_name(req, hashed, checking);
    assert(hashed is Ok);
    hashed->Ok_0@
}

/// An image that was taken is served again byte for byte, with the type of one of the four
/// kinds of images.
pub proof fn law_a_stored_image_is_served(
    data_dir: Seq<char>,
    user: Uuid,
    data: Seq<char>,
    taken: Step,
    served: Step,
)
    requires
        takes_avatar(taken, data_dir, user, data),
        taken matches Step::Ask(_, Action::WriteFile { path, bytes }) && serves_avatar(
            Event::Bytes(bytes),
            served,
        ),
    ensures
        ({
            &&& taken matches Step::Ask(_, Action::WriteFile { path, bytes })
            &&& codec::base64_bytes(text::trimmed(data)) == Some(bytes@)
            &&& served matches Step::Done(f)
            &&& f.reply.status == OK
            &&& f.reply.body matches Body::Image { mime, bytes: b, .. }
            &&& b == bytes
            &&& avatar_mime(bytes@) == Some(mime@)
        }),
{
}

/// A wrong password and a wrong name are answered alike.
pub proof fn law_failed_logins_look_alike(
    password: String,
    none: Vec<Vec<db::Value>>,
    rows: Vec<Vec<db::Value>>,
    draw: Draw,
    no_name: Step,
    no_password: Step,
)
    requires
        none@.len() == 0,
        rows@.len() > 0,
        db::has_login_cells(rows@[0]@),
        id::parsed_uuid(db::text_at(rows@[0]@, 0)->0@) is Some,
        !passwords::accepts(db::text_at(rows@[0]@, 5)->0@, password@),
        (Login::Finding { password }).leads_to(Event::Rows(none), draw, no_name),
        (Login::Finding { password }).leads_to(Event::Rows(rows), draw, no_password),
    ensures
        no_name.refuses(UNAUTHORIZED, "invalid credentials"@),
        no_password.refuses(UNAUTHORIZED, "invalid credentials"@),
{
}

} // verus!

//! Opening a session: by a stored token, by asking for a name and a password, or in a form.

use crate::client::{Client, HttpRequest, Method, Payload};
use crate::keys::{Key, Modifiers};
use crate::protocol::{AuthResponse, User};
use crate::style;
use crate::style::{Color, Line, Span, Style};
use crate::text;
use crate::ui;
use crate::ui::{line3, one_line, place, Block, Placed, PlacedView, Rect, Share, Widget};
use vstd::prelude::*;

verus! {

// ---------------------------------------------------------------------------
// By a stored token, or by asking
// ---------------------------------------------------------------------------

/// How far the opening of a session on `server` has come.
#[derive(Debug)]
pub enum LoginFlow {
    /// The stored token is being tried,
    Token { server: String, token: String },
    /// then a name and a password are asked for,
    Asking { server: String },
    /// then they are tried,
    Login { server: String, name: String, password: String },
    /// and else an account is made.
    Register { server: String },
    Over,
}

/// What came of it.
#[derive(Debug)]
pub enum LoginEvent {
    /// Who the token belongs to.
    Me(User),
    Entered { name: String, password: String },
    Session(AuthResponse),
    Failed(String),
}

/// What is to be done next.
#[derive(Debug)]
pub enum LoginAction {
    /// Ask for a name and a password. `notice` is said first.
    Ask { notice: Option<String> },
    /// Make a request. `notice` is said first.
    Request { notice: Option<String>, request: HttpRequest },
    /// The session is open. Where it is a new one, its token is to be stored.
    Open { client: Client, user: User, store: bool },
    Fail(String),
}

impl LoginAction {
    /// A name and a password are asked for, with nothing said first.
    pub open spec fn asks_quietly(self) -> bool {
        self matches LoginAction::Ask { notice } && notice is None
    }

    pub open spec fn asks_after(self, said: Seq<char>) -> bool {
        &&& self matches LoginAction::Ask { notice }
        &&& notice matches Some(n)
        &&& n@ == said
    }

    /// The request is a login or a registration on a server.
    pub open spec fn requests(
        self,
        path: Seq<char>,
        server: Seq<char>,
        name: Seq<char>,
        password: Seq<char>,
    ) -> bool {
        &&& self matches LoginAction::Request { notice, request }
        &&& request.method == Method::Post
        &&& request.url@ == text::without_trailing(server, '/') + path
        &&& request.token is None
        &&& match request.payload {
            Payload::Login(req) => path == "/api/v1/login"@ && req.name@ == name && req.password@
                == password,
            Payload::Register(req) => path == "/api/v1/register"@ && req.name@ == name
                && req.password@ == password && req.display_name is None,
            _ => false,
        }
    }
}

/// How the opening of a session starts.
pub open spec fn begins_login_flow(
    server: String,
    token: Option<String>,
    r: (LoginFlow, LoginAction),
) -> bool {
    match token {
        Some(t) => {
            &&& r.0 == (LoginFlow::Token { server, token: t })
            &&& r.1 matches LoginAction::Request { notice, request }
            &&& notice is None
            &&& request.method == Method::Get
            &&& request.url@ == text::without_trailing(server@, '/') + "/api/v1/me"@
            &&& request.token == Some(t)
            &&& request.payload is Nothing
        },
        None => r.0 == (LoginFlow::Asking { server }) && r.1.asks_quietly(),
    }
}

/// Starts to open a session: with the stored token where there is one, else by asking.
pub fn login_flow(server: String, token: Option<String>) -> (r: (LoginFlow, LoginAction))
    ensures
        match token {
            Some(t) => {
                &&& r.0 == (LoginFlow::Token { server, token: t })
                &&& r.1 matches LoginAction::Request { notice, request }
                &&& notice is None
                &&& request.method == Method::Get
                &&& request.url@ == text::without_trailing(server@, '/') + "/api/v1/me"@
                &&& request.token == Some(t)
                &&& request.payload is Nothing
            },
            None => r.0 == (LoginFlow::Asking { server }) && r.1.asks_quietly(),
        },
        begins_login_flow(server, token, r),
{
    match token {
        Some(t) => {
            let client = Client::new(server.as_str(), t.clone());
            let request = client.me();
            (
                LoginFlow::Token { server, token: t },
                LoginAction::Request { notice: None, request },
            )
        },
        None => (LoginFlow::Asking { server }, LoginAction::Ask { notice: None }),
    }
}

impl LoginFlow {
    /// A new session is open, and its token is to be stored.
    pub open spec fn opens(server: Seq<char>, auth: AuthResponse, a: LoginAction) -> bool {
        &&& a matches LoginAction::Open { client, user, store }
        &&& client.base@ == text::without_trailing(server, '/')
        &&& client.token == auth.token
        &&& user == auth.user
        &&& store
    }

    pub open spec fn leads_to(self, event: LoginEvent, r: (LoginFlow, LoginAction)) -> bool {
        match (self, event) {
            (LoginFlow::Token { server, token }, LoginEvent::Me(me)) => {
                &&& r.0 is Over
                &&& r.1 matches LoginAction::Open { client, user, store }
                &&& client.base@ == text::without_trailing(server@, '/')
                &&& client.token == token
                &&& user == me
                &&& !store
            },
            (LoginFlow::Token { server, token }, _) => {
                &&& r.0 == (LoginFlow::Asking { server })
                &&& r.1.asks_after("saved token invalid, please log in again"@)
            },
            (LoginFlow::Asking { server }, LoginEvent::Entered { name, password }) => {
                &&& r.0 == (LoginFlow::Login { server, name, password })
                &&& r.1.requests("/api/v1/login"@, server@, name@, password@)
                &&& r.1->Request_notice is None
            },
            (LoginFlow::Login { server, name, password }, LoginEvent::Session(auth)) => {
                r.0 is Over && LoginFlow::opens(server@, auth, r.1)
            },
            (LoginFlow::Login { server, name, password }, _) => {
                &&& r.0 == (LoginFlow::Register { server })
                &&& r.1.requests("/api/v1/register"@, server@, name@, password@)
                &&& r.1->Request_notice matches Some(n)
                &&& n@ == "login failed, trying register…"@
            },
            (LoginFlow::Register { server }, LoginEvent::Session(auth)) => {
                r.0 is Over && LoginFlow::opens(server@, auth, r.1)
            },
            (_, LoginEvent::Failed(e)) => r.0 is Over && r.1 == LoginAction::Fail(e),
            _ => {
                &&& r.0 is Over
                &&& r.1 matches LoginAction::Fail(e)
                &&& e@ == "unexpected event"@
            },
        }
    }

    /// Goes on with the opening of a session.
    pub fn next(self, event: LoginEvent) -> (r: (LoginFlow, LoginAction))
        ensures
            self.leads_to(event, r),
    {
        match (self, event) {
            (LoginFlow::Token { server, token }, LoginEvent::Me(me)) => (
                LoginFlow::Over,
                LoginAction::Open {
                    client: Client::new(server.as_str(), token),
                    user: me,
                    store: false,
                },
            ),
            (LoginFlow::Token { server, token: _ }, _) => (
                LoginFlow::Asking { server },
                LoginAction::Ask {
                    notice: Some("saved token invalid, please log in again".to_owned()),
                },
            ),
            (LoginFlow::Asking { server }, LoginEvent::Entered { name, password }) => {
                let request = Client::login(server.as_str(), name.as_str(), password.as_str());
                (
                    LoginFlow::Login { server, name, password },
                    LoginAction::Request { notice: None, request },
                )
            },
            (LoginFlow::Login { server, name: _, password: _ }, LoginEvent::Session(auth)) => (
                LoginFlow::Over,
                LoginAction::Open {
                    client: Client::new(server.as_str(), auth.token),
                    user: auth.user,
                    store: true,
                },
            ),
            (LoginFlow::Login { server, name, password }, _) => {
                let request = Client::register(server.as_str(), name.as_str(), password.as_str());
                (
                    LoginFlow::Register { server },
                    LoginAction::Request {
                        notice: Some("login failed, trying register…".to_owned()),
                        request,
                    },
                )
            },
            (LoginFlow::Register { server }, LoginEvent::Session(auth)) => (
                LoginFlow::Over,
                LoginAction::Open {
                    client: Client::new(server.as_str(), auth.token),
                    user: auth.user,
                    store: true,
                },
            ),
            (_, LoginEvent::Failed(e)) => (LoginFlow::Over, LoginAction::Fail(e)),
            _ => (LoginFlow::Over, LoginAction::Fail("unexpected event".to_owned())),
        }
    }
}

/// A name that the server does not know becomes an account: where the login fails, the same
/// name and password are registered, and the session that this opens is kept.
pub proof fn law_the_first_launch_registers(
    server: String,
    name: String,
    password: String,
    error: String,
    auth: AuthResponse,
    asked: (LoginFlow, LoginAction),
    refused: (LoginFlow, LoginAction),
    made: (LoginFlow, LoginAction),
)
    requires
        (LoginFlow::Asking { server }).leads_to(LoginEvent::Entered { name, password }, asked),
        asked.0.leads_to(LoginEvent::Failed(error), refused),
        refused.0.leads_to(LoginEvent::Session(auth), made),
    ensures
        asked.1.requests("/api/v1/login"@, server@, name@, password@),
        refused.1.requests("/api/v1/register"@, server@, name@, password@),
        LoginFlow::opens(server@, auth, made.1),
{
}

// ---------------------------------------------------------------------------
// The form
// ---------------------------------------------------------------------------

/// A field of the form.
#[derive(Debug, Clone, Copy, PartialEq, Eq, Structural)]
pub enum Field {
    Server,
    Username,
    Password,
}

impl Field {
    /// The place of a field, from the top.
    pub open spec fn place(self) -> int {
        match self {
            Field::Server => 0,
            Field::Username => 1,
            Field::Password => 2,
        }
    }

    /// The field below, from the last one round to the first.
    pub fn next(self) -> (r: Field)
        ensures
            r.place() == (self.place() + 1) % 3,
    {
        match self {
            Field::Server => Field::Username,
            Field::Username => Field::Password,
            Field::Password => Field::Server,
        }
    }

    /// The field above, from the first one round to the last.
    pub fn prev(self) -> (r: Field)
        ensures
            r.place() == (self.place() + 2) % 3,
    {
        match self {
            Field::Server => Field::Password,
            Field::Username => Field::Server,
            Field::Password => Field::Username,
        }
    }
}

/// Stepping forth and back ends where it began.
pub proof fn law_fields_step_back(a: Field, forth: Field, back: Field)
    requires
        forth.place() == (a.place() + 1) % 3,
        back.place() == (forth.place() + 2) % 3,
    ensures
        back == a,
{
}

/// The form.
#[derive(Debug)]
pub struct LoginApp {
    pub server: String,
    pub username: String,
    pub password: String,
    pub focus: Field,
    pub register_mode: bool,
    pub error: String,
    pub busy: bool,
}

/// What the form wants done.
#[derive(Debug)]
pub enum FormAction {
    Nothing,
    /// The user gave up.
    Cancel,
    Request(HttpRequest),
}

impl LoginApp {
    /// An empty form for the server that the environment or the options name.
    pub fn new(named: Option<String>, server_url: &str) -> (r: LoginApp)
        ensures
            r.server@ == (match named {
                Some(s) => s@,
                None => server_url@,
            }),
            r.username@.len() == 0,
            r.password@.len() == 0,
            r.focus == Field::Username,
            !r.register_mode,
            r.error@.len() == 0,
            !r.busy,
    {
        LoginApp {
            server: match named {
                Some(s) => s,
                None => server_url.to_owned(),
            },
            username: String::new(),
            password: String::new(),
            focus: Field::Username,
            register_mode: false,
            error: String::new(),
            busy: false,
        }
    }

    /// What is in the field that has the keys.
    pub open spec fn focused(self) -> Seq<char> {
        match self.focus {
            Field::Server => self.server@,
            Field::Username => self.username@,
            Field::Password => self.password@,
        }
    }

    /// Only the field that has the keys changed, to `s`, and the error is gone.
    pub open spec fn retyped(self, new: LoginApp, s: Seq<char>) -> bool {
        &&& new.error@.len() == 0
        &&& new.focused() == s
        &&& match self.focus {
            Field::Server => new == (LoginApp { server: new.server, error: new.error, ..self }),
            Field::Username => new == (LoginApp {
                username: new.username,
                error: new.error,
                ..self
            }),
            Field::Password => new == (LoginApp {
                password: new.password,
                error: new.error,
                ..self
            }),
        }
    }

    /// The server's address as it is used: trimmed, without slashes at its end.
    pub open spec fn address(self) -> Seq<char> {
        text::without_trailing(text::trimmed(self.server@), '/')
    }

    /// Something is missing in the form.
    pub open spec fn incomplete(self) -> bool {
        self.address().len() == 0 || text::is_blank(self.username@) || self.password@.len() == 0
    }

    /// What sending the form does: it says what is missing, or makes the request.
    pub open spec fn submits(self, new: LoginApp, a: FormAction) -> bool {
        if self.incomplete() {
            &&& new == (LoginApp { error: new.error, ..self })
            &&& new.error@ == "server, username and password are all required"@
            &&& a is Nothing
        } else {
            &&& new == (LoginApp { busy: true, ..self })
            &&& a matches FormAction::Request(r)
            &&& r.method == Method::Post
            &&& r.token is None
            &&& if self.register_mode {
                &&& r.url@ == text::without_trailing(self.address(), '/') + "/api/v1/register"@
                &&& r.payload matches Payload::Register(req)
                &&& req.name@ == text::trimmed(self.username@)
                &&& req.display_name is None
                &&& req.password@ == self.password@
            } else {
                &&& r.url@ == text::without_trailing(self.address(), '/') + "/api/v1/login"@
                &&& r.payload matches Payload::Login(req)
                &&& req.name@ == text::trimmed(self.username@)
                &&& req.password@ == self.password@
            }
        }
    }

    pub fn submit(&mut self) -> (r: FormAction)
        ensures
            old(self).submits(*final(self), r),
    {
        let trimmed = text::trim(self.server.as_str());
        let address = text::trim_end_char(trimmed.as_str(), '/');
        if address.as_str().is_empty() || text::blank(self.username.as_str())
            || self.password.as_str().is_empty() {
            self.error = "server, username and password are all required".to_owned();
            return FormAction::Nothing;
        }
        self.busy = true;
        let name = text::trim(self.username.as_str());
        if self.register_mode {
            FormAction::Request(
                Client::register(address.as_str(), name.as_str(), self.password.as_str()),
            )
        } else {
            FormAction::Request(
                Client::login(address.as_str(), name.as_str(), self.password.as_str()),
            )
        }
    }

    /// What came of the request: a session, or an error to show, of which the first 90
    /// characters are, and another try at the password.
    pub open spec fn takes(
        self,
        outcome: Result<AuthResponse, String>,
        new: LoginApp,
        session: Option<(Client, User)>,
    ) -> bool {
        match outcome {
            Ok(auth) => {
                &&& new == (LoginApp { busy: false, ..self })
                &&& session matches Some((client, user))
                &&& client.base@ == text::without_trailing(self.address(), '/')
                &&& client.token == auth.token
                &&& user == auth.user
            },
            Err(e) => {
                &&& new == (LoginApp {
                    busy: false,
                    error: new.error,
                    password: new.password,
                    ..self
                })
                &&& new.error@ == text::first_chars(e@, 90)
                &&& new.password@.len() == 0
                &&& session is None
            },
        }
    }

    pub fn take(&mut self, outcome: Result<AuthResponse, String>) -> (r: Option<(Client, User)>)
        ensures
            old(self).takes(outcome, *final(self), r),
    {
        self.busy = false;
        match outcome {
            Ok(auth) => {
                let trimmed = text::trim(self.server.as_str());
                let address = text::trim_end_char(trimmed.as_str(), '/');
                Some((Client::new(address.as_str(), auth.token), auth.user))
            },
            Err(e) => {
                self.error = text::take_chars(e.as_str(), 90);
                self.password.clear();
                None
            },
        }
    }

    /// Says that the token of a new session could not be stored.
    pub fn store_failed(&mut self)
        ensures
            *final(self) == (LoginApp { error: final(self).error, ..*old(self) }),
            final(self).error@ == "logged in, but could not save the token file"@,
    {
        self.error = "logged in, but could not save the token file".to_owned();
    }

    /// What a key does in the form.
    pub open spec fn handles_key(
        self,
        key: Key,
        mods: Modifiers,
        new: LoginApp,
        a: FormAction,
    ) -> bool {
        match key {
            Key::Esc => new == self && a is Cancel,
            Key::Tab => {
                &&& new == (LoginApp { focus: new.focus, ..self })
                &&& new.focus.place() == (self.focus.place() + if mods.shift {
                    2int
                } else {
                    1int
                }) % 3
                &&& a is Nothing
            },
            Key::F(n) => {
                &&& a is Nothing
                &&& if n == 2 {
                    &&& new == (LoginApp {
                        register_mode: !self.register_mode,
                        error: new.error,
                        ..self
                    })
                    &&& new.error@.len() == 0
                } else {
                    new == self
                }
            },
            Key::Backspace => {
                &&& a is Nothing
                &&& self.retyped(new, crate::keys::shortened(self.focused()))
            },
            Key::Enter => self.submits(new, a),
            Key::Char(c) => a is Nothing && self.retyped(new, self.focused().push(c)),
            _ => new == self && a is Nothing,
        }
    }

    /// Handles a key.
    pub fn run_login(&mut self, key: Key, mods: Modifiers) -> (r: FormAction)
        ensures
            old(self).handles_key(key, mods, *final(self), r),
    {
        match key {
            Key::Esc => {
                return FormAction::Cancel;
            },
            Key::Tab => {
                self.focus = if mods.shift {
                    self.focus.prev()
                } else {
                    self.focus.next()
                };
            },
            Key::F(n) => {
                if n == 2 {
                    self.register_mode = !self.register_mode;
                    self.error.clear();
                }
            },
            Key::Backspace => {
                self.error.clear();
                match self.focus {
                    Field::Server => {
                        self.server.pop();
                    },
                    Field::Username => {
                        self.username.pop();
                    },
                    Field::Password => {
                        self.password.pop();
                    },
                }
            },
            Key::Enter => {
                return self.submit();
            },
            Key::Char(c) => {
                self.error.clear();
                match self.focus {
                    Field::Server => self.server.push(c),
                    Field::Username => self.username.push(c),
                    Field::Password => self.password.push(c),
                }
            },
            _ => {},
        }
        FormAction::Nothing
    }
}

// ---------------------------------------------------------------------------
// How the form looks
// ---------------------------------------------------------------------------

/// Where the form is drawn: its border, and inside it the heading, the three fields, the
/// line with the mode, and the line with the news.
#[derive(Debug)]
pub struct FormPlaces {
    pub area: Rect,
    pub rows: Vec<Rect>,
}

impl FormPlaces {
    pub open spec fn wf(self) -> bool {
        &&& self.rows@.len() == 7
        &&& forall|i: int|
            0 <= i < 7 ==> (#[trigger] self.rows@[i]).x == ui::inside(self.area).x
                && self.rows@[i].width == ui::inside(self.area).width
    }
}

/// What the parts of the form get of its height: its heading, three fields, the mode, a line
/// for what there is to say, and the rest.
pub open spec fn form_shares() -> Seq<Share> {
    seq![
        Share::Length(1),
        Share::Length(3),
        Share::Length(3),
        Share::Length(3),
        Share::Length(1),
        Share::Length(1),
        Share::Min(0),
    ]
}

/// Finds a place for the form, in the middle of a screen.
pub fn arrange_form(screen: Rect) -> (r: FormPlaces)
    ensures
        ui::is_centered(screen, 60, 55, r.area),
        ui::parted(true, form_shares(), ui::inside(r.area), r.rows@),
        r.wf(),
{
    let area = ui::centered(screen, 60, 55);
    let shares: Vec<Share> = vec![
        Share::Length(1),
        Share::Length(3),
        Share::Length(3),
        Share::Length(3),
        Share::Length(1),
        Share::Length(1),
        Share::Min(0),
    ];
    assert(shares@ =~= form_shares());
    let rows = ui::split(true, &shares, ui::inner(area));
    FormPlaces { area, rows }
}

/// What a field shows: its text, or as many dots where it is secret, and a cursor where it
/// has the keys.
pub open spec fn field_text(value: Seq<char>, secret: bool, focused: bool) -> Seq<char> {
    (if secret {
        Seq::new(value.len(), |i: int| '•')
    } else {
        value
    }) + (if focused {
        "▊"@
    } else {
        ""@
    })
}

pub open spec fn field_view(label: Seq<char>, value: Seq<char>, secret: bool, focused: bool) ->
    ui::WidgetView {
    ui::WidgetView::Paragraph {
        block: Some(
            ui::BlockView {
                title: " "@ + label + " "@,
                border_style: if focused {
                    Style::new().fg(Color::Cyan).bold()
                } else {
                    Style::new().fg(Color::DarkGray)
                },
                rounded: false,
                style: Style::new(),
            },
        ),
        lines: style::text_lines(field_text(value, secret, focused)),
        wrap: false,
    }
}

pub fn field(label: &str, value: &str, secret: bool, focused: bool) -> (r: Widget)
    ensures
        r@ == field_view(label@, value@, secret, focused),
{
    let mut shown = if secret {
        let chars = text::chars_of(value);
        text::repeated('•', chars.len())
    } else {
        value.to_owned()
    };
    shown.append(if focused {
        "▊"
    } else {
        ""
    });
    assert(shown@ =~= field_text(value@, secret, focused));
    let mut title = text::joined(" ", label);
    title.append(" ");
    Widget::Paragraph {
        block: Some(
            Block {
                title,
                border_style: if focused {
                    Style::new().fg(Color::Cyan).bold()
                } else {
                    Style::new().fg(Color::DarkGray)
                },
                rounded: false,
                style: Style::new(),
            },
        ),
        lines: style::lines_from_text(shown.as_str()),
        wrap: false,
    }
}

/// One line, without a border.
pub open spec fn bare(l: style::LineView) -> ui::WidgetView {
    ui::WidgetView::Paragraph { block: None, lines: seq![l], wrap: false }
}

/// A line of one styled span.
pub open spec fn said(s: Seq<char>, style: Style) -> style::LineView {
    style::plain_line(seq![style::styled(s, style)])
}

impl LoginApp {
    /// The line with the mode.
    pub open spec fn mode_line(self) -> style::LineView {
        style::plain_line(
            seq![
                style::raw("Mode: "@),
                if self.register_mode {
                    style::styled("[Register]"@, Style::new().bold().fg(Color::Yellow))
                } else {
                    style::styled("[Log in]"@, Style::new().bold().fg(Color::Green))
                },
                style::styled("  (F2 to switch)"@, Style::new().fg(Color::DarkGray)),
            ],
        )
    }

    /// The line with the news: that a request is being made, an error, or else the keys.
    pub open spec fn news_line(self) -> style::LineView {
        if self.busy {
            said("working…"@, Style::new().fg(Color::Yellow))
        } else if self.error@.len() > 0 {
            said(self.error@, Style::new().fg(Color::Red))
        } else {
            said(
                "Tab move · Enter submit · F2 login/register · Esc quit"@,
                Style::new().fg(Color::DarkGray),
            )
        }
    }

    /// The form on the screen.
    pub open spec fn drawn(self, p: FormPlaces) -> Seq<PlacedView> {
        seq![
            PlacedView { area: p.area, widget: ui::WidgetView::Clear },
            PlacedView {
                area: p.area,
                widget: ui::WidgetView::Border(
                    ui::BlockView {
                        title: if self.register_mode {
                            " Register "@
                        } else {
                            " Log in "@
                        },
                        border_style: Style::new().fg(Color::Cyan).bold(),
                        rounded: true,
                        style: Style::new(),
                    },
                ),
            },
            PlacedView {
                area: p.rows@[0],
                widget: bare(
                    said(
                        "tuimessager — "@ + (if self.register_mode {
                            "create a new account on your server"@
                        } else {
                            "self-hosted server (no Discord)"@
                        }),
                        Style::new().fg(Color::Cyan).bold(),
                    ),
                ),
            },
            PlacedView {
                area: p.rows@[1],
                widget: field_view(
                    "Server"@,
                    self.server@,
                    false,
                    self.focus == Field::Server,
                ),
            },
            PlacedView {
                area: p.rows@[2],
                widget: field_view(
                    "Username"@,
                    self.username@,
                    false,
                    self.focus == Field::Username,
                ),
            },
            PlacedView {
                area: p.rows@[3],
                widget: field_view(
                    "Password"@,
                    self.password@,
                    true,
                    self.focus == Field::Password,
                ),
            },
            PlacedView { area: p.rows@[4], widget: bare(self.mode_line()) },
            PlacedView { area: p.rows@[5], widget: bare(self.news_line()) },
        ]
    }

    fn make_mode_line(&self) -> (r: Line)
        ensures
            r@ == self.mode_line(),
    {
        line3(
            Span::raw("Mode: ".to_owned()),
            if self.register_mode {
                Span::styled("[Register]".to_owned(), Style::new().bold().fg(Color::Yellow))
            } else {
                Span::styled("[Log in]".to_owned(), Style::new().bold().fg(Color::Green))
            },
            Span::styled("  (F2 to switch)".to_owned(), Style::new().fg(Color::DarkGray)),
        )
    }

    fn make_news_line(&self) -> (r: Line)
        ensures
            r@ == self.news_line(),
    {
        if self.busy {
            Line::styled("working…".to_owned(), Style::new().fg(Color::Yellow))
        } else if !self.error.as_str().is_empty() {
            Line::styled(self.error.clone(), Style::new().fg(Color::Red))
        } else {
            Line::styled(
                "Tab move · Enter submit · F2 login/register · Esc quit".to_owned(),
                Style::new().fg(Color::DarkGray),
            )
        }
    }

    /// Describes the form, for given places.
    pub fn draw_login(&self, p: &FormPlaces) -> (r: Vec<Placed>)
        requires
            p.wf(),
        ensures
            ui::placed_views(r@) == self.drawn(*p),
    {
        let mut out: Vec<Placed> = Vec::new();
        place(&mut out, p.area, Widget::Clear);
        place(
            &mut out,
            p.area,
            Widget::Border(
                Block {
                    title: if self.register_mode {
                        " Register ".to_owned()
                    } else {
                        " Log in ".to_owned()
                    },
                    border_style: Style::new().fg(Color::Cyan).bold(),
                    rounded: true,
                    style: Style::new(),
                },
            ),
        );
        let heading = text::joined(
            "tuimessager — ",
            if self.register_mode {
                "create a new account on your server"
            } else {
                "self-hosted server (no Discord)"
            },
        );
        let heading = Line::styled(heading, Style::new().fg(Color::Cyan).bold());
        place(
            &mut out,
            p.rows[0],
            Widget::Paragraph { block: None, lines: one_line(heading), wrap: false },
        );
        place(
            &mut out,
            p.rows[1],
            field("Server", self.server.as_str(), false, self.focus == Field::Server),
        );
        place(
            &mut out,
            p.rows[2],
            field("Username", self.username.as_str(), false, self.focus == Field::Username),
        );
        place(
            &mut out,
            p.rows[3],
            field("Password", self.password.as_str(), true, self.focus == Field::Password),
        );
        place(
            &mut out,
            p.rows[4],
            Widget::Paragraph { block: None, lines: one_line(self.make_mode_line()), wrap: false },
        );
        place(
            &mut out,
            p.rows[5],
            Widget::Paragraph { block: None, lines: one_line(self.make_news_line()), wrap: false },
        );
        assert(ui::placed_views(out@) =~= self.drawn(*p));
        out
    }
}

/// The form never shows the password: two that are as long as each other look the same.
pub proof fn law_passwords_are_not_shown(a: LoginApp, b: LoginApp, p: FormPlaces)
    requires
        a.password@.len() == b.password@.len(),
        a == (LoginApp { password: a.password, ..b }),
    ensures
        a.drawn(p) == b.drawn(p),
{
    assert(Seq::new(a.password@.len(), |i: int| '•') =~= Seq::new(
        b.password@.len(),
        |i: int| '•',
    ));
}

} // verus!

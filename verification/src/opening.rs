//! How a session is opened: what is tried first, what the form takes and sends, and what it
//! shows; and where the options and the token come from.

use crate::client::{Client, Method, Payload};
use crate::codec;
use crate::config;
use crate::dashboard::line;
use crate::id;
use crate::keys::{Key, Modifiers};
use crate::login;
use crate::login::{Field, FormAction, FormPlaces, LoginAction, LoginApp, LoginEvent, LoginFlow};
use crate::protocol::{AuthResponse, User};
use crate::server_config;
use crate::shown::{bare, run, tinted};
use crate::style;
use crate::style::{Color, Style};
use crate::text;
use crate::time;
use crate::ui;
use crate::ui::{BlockView, PlacedView, Rect, WidgetView};
use vstd::prelude::*;

verus! {

/// A text with some slashes behind it.
pub open spec fn slashed(s: Seq<char>, n: nat) -> Seq<char> {
    s + Seq::new(n, |i: int| '/')
}

// ---------------------------------------------------------------------------
// Opening a session
// ---------------------------------------------------------------------------

/// A stored token that the server knows opens the session that it is of, on the server whose
/// address it was, and is not stored again. One that it does not know is said to be invalid,
/// and the name and the password are asked for.
pub proof fn law_a_stored_token_is_tried(
    server: String,
    address: Seq<char>,
    slashes: nat,
    token: String,
    me: User,
    other: LoginEvent,
    known: (LoginFlow, LoginAction),
    unknown: (LoginFlow, LoginAction),
)
    requires
        server@ == slashed(address, slashes),
        address.len() > 0,
        address[0] != '/',
        address.last() != '/',
        (LoginFlow::Token { server, token }).leads_to(LoginEvent::Me(me), known),
        !(other is Me),
        (LoginFlow::Token { server, token }).leads_to(other, unknown),
    ensures
        known.1 matches LoginAction::Open { client, user, store } && client.base@ == address
            && client.token == token && user == me && !store,
        unknown.0 == (LoginFlow::Asking { server }),
        unknown.1 matches LoginAction::Ask { notice } && notice is Some && notice->0@
            == "saved token invalid, please log in again"@,
{
    text::law_one_character_is_taken_away(address, '/', slashes);
}

/// What was entered is tried as a login, and where that fails as a registration, on the same
/// server and with the same name and password. Either way the session that comes of it is
/// open, and its token is stored; an error of the registration ends it.
pub proof fn law_a_login_is_tried_before_a_registration(
    server: String,
    address: Seq<char>,
    slashes: nat,
    name: String,
    password: String,
    auth: AuthResponse,
    error: String,
    tried: (LoginFlow, LoginAction),
    opened: (LoginFlow, LoginAction),
    refused: (LoginFlow, LoginAction),
    made: (LoginFlow, LoginAction),
    failed: (LoginFlow, LoginAction),
)
    requires
        server@ == slashed(address, slashes),
        address.len() > 0,
        address[0] != '/',
        address.last() != '/',
        (LoginFlow::Asking { server }).leads_to(LoginEvent::Entered { name, password }, tried),
        tried.0.leads_to(LoginEvent::Session(auth), opened),
        tried.0.leads_to(LoginEvent::Failed(error), refused),
        refused.0.leads_to(LoginEvent::Session(auth), made),
        refused.0.leads_to(LoginEvent::Failed(error), failed),
    ensures
        ({
            &&& tried.1 matches LoginAction::Request { notice, request }
            &&& notice is None
            &&& request.method == Method::Post
            &&& request.url@ == address + "/api/v1/login"@
            &&& request.token is None
            &&& request.payload matches Payload::Login(req)
            &&& req.name@ == name@
            &&& req.password@ == password@
        }),
        ({
            &&& refused.1 matches LoginAction::Request { notice, request }
            &&& notice is Some && notice->0@ == "login failed, trying register…"@
            &&& request.method == Method::Post
            &&& request.url@ == address + "/api/v1/register"@
            &&& request.token is None
            &&& request.payload matches Payload::Register(req)
            &&& req.name@ == name@
            &&& req.password@ == password@
            &&& req.display_name is None
        }),
        opened.1 matches LoginAction::Open { client, user, store } && client.base@ == address
            && client.token == auth.token && user == auth.user && store,
        made.1 matches LoginAction::Open { client, user, store } && client.base@ == address
            && client.token == auth.token && user == auth.user && store,
        failed.1 == LoginAction::Fail(error),
{
    text::law_one_character_is_taken_away(address, '/', slashes);
    reveal_strlit("/api/v1/login");
    reveal_strlit("/api/v1/register");
    assert("/api/v1/login"@.len() == 13 && "/api/v1/register"@.len() == 16);
}

// ---------------------------------------------------------------------------
// The form
// ---------------------------------------------------------------------------

/// The server that is used is what was typed, without the white space around it and the
/// slashes behind it.
pub proof fn law_the_address_is_cleaned(
    form: LoginApp,
    before: Seq<char>,
    address: Seq<char>,
    slashes: nat,
    after: Seq<char>,
)
    requires
        form.server@ == before + slashed(address, slashes) + after,
        text::is_blank(before),
        text::is_blank(after),
        address.len() > 0,
        address[0] != '/',
        address.last() != '/',
        !text::is_white_space(address[0]),
        !text::is_white_space(address.last()),
    ensures
        form.address() == address,
{
    let typed = slashed(address, slashes);
    assert(typed[0] == address[0]);
    if slashes > 0 {
        assert(typed.last() == '/');
    } else {
        assert(typed =~= address);
    }
    text::law_white_space('/');
    text::law_trimming(before, typed, after);
    text::law_one_character_is_taken_away(address, '/', slashes);
}

proof fn lemma_cleaned_stays(s: Seq<char>)
    ensures
        text::without_trailing(text::without_trailing(s, '/'), '/') == text::without_trailing(
            s,
            '/',
        ),
    decreases s.len(),
{
    if s.len() > 0 && s.last() == '/' {
        lemma_cleaned_stays(s.drop_last());
    }
}

/// A form in which something is missing is not sent, and says so. A whole one is sent as a
/// login or a registration, as its mode says, with the name trimmed and the password as it
/// was typed.
pub proof fn law_a_whole_form_is_sent(form: LoginApp, new: LoginApp, a: FormAction)
    requires
        form.submits(new, a),
    ensures
        ({
            let missing = form.address().len() == 0 || text::is_blank(form.username@)
                || form.password@.len() == 0;
            &&& missing ==> a is Nothing && new == (LoginApp { error: new.error, ..form })
                && new.error@ == "server, username and password are all required"@
            &&& !missing ==> new == (LoginApp { busy: true, ..form })
            &&& !missing ==> ({
                &&& a matches FormAction::Request(r)
                &&& r.method == Method::Post
                &&& r.token is None
                &&& r.url@ == form.address() + (if form.register_mode {
                    "/api/v1/register"@
                } else {
                    "/api/v1/login"@
                })
                &&& form.register_mode ==> (r.payload matches Payload::Register(req) && req.name@
                    == text::trimmed(form.username@) && req.password@ == form.password@
                    && req.display_name is None)
                &&& !form.register_mode ==> (r.payload matches Payload::Login(req) && req.name@
                    == text::trimmed(form.username@) && req.password@ == form.password@)
            })
        }),
{
    lemma_cleaned_stays(text::trimmed(form.server@));
}

/// A session that the form opened is on the server of the form. An error is shown, up to
/// ninety characters of it, and the password is to be typed again.
pub proof fn law_the_form_takes_the_outcome(
    form: LoginApp,
    auth: AuthResponse,
    error: String,
    done: LoginApp,
    session: Option<(Client, User)>,
    again: LoginApp,
    none: Option<(Client, User)>,
)
    requires
        form.takes(Ok(auth), done, session),
        form.takes(Err(error), again, none),
    ensures
        done == (LoginApp { busy: false, ..form }),
        session matches Some((client, user)) && client.base@ == form.address() && client.token
            == auth.token && user == auth.user,
        none is None,
        again == (LoginApp {
            busy: false,
            error: again.error,
            password: again.password,
            ..form
        }),
        again.password@.len() == 0,
        error@.len() <= 90 ==> again.error@ == error@,
        error@.len() > 90 ==> again.error@ == error@.take(90),
{
    lemma_cleaned_stays(text::trimmed(form.server@));
}

/// What is typed goes into the field that has the keys and into no other. Tab goes to the next
/// one, and with shift to the one before; F2 changes the mode; Escape gives up.
pub proof fn law_keys_in_the_form(
    form: LoginApp,
    key: Key,
    mods: Modifiers,
    new: LoginApp,
    a: FormAction,
)
    requires
        form.handles_key(key, mods, new, a),
    ensures
        key == Key::Esc ==> new == form && a is Cancel,
        key == Key::Tab && !mods.shift ==> a is Nothing && new == (LoginApp {
            focus: match form.focus {
                Field::Server => Field::Username,
                Field::Username => Field::Password,
                Field::Password => Field::Server,
            },
            ..form
        }),
        key == Key::Tab && mods.shift ==> a is Nothing && new == (LoginApp {
            focus: match form.focus {
                Field::Server => Field::Password,
                Field::Username => Field::Server,
                Field::Password => Field::Username,
            },
            ..form
        }),
        key == Key::F(2) ==> a is Nothing && new == (LoginApp {
            register_mode: !form.register_mode,
            error: new.error,
            ..form
        }) && new.error@.len() == 0,
        key matches Key::Char(c) ==> {
            &&& a is Nothing
            &&& new.error@.len() == 0
            &&& form.focus == Field::Server ==> new == (LoginApp {
                server: new.server,
                error: new.error,
                ..form
            }) && new.server@ == form.server@ + seq![c]
            &&& form.focus == Field::Username ==> new == (LoginApp {
                username: new.username,
                error: new.error,
                ..form
            }) && new.username@ == form.username@ + seq![c]
            &&& form.focus == Field::Password ==> new == (LoginApp {
                password: new.password,
                error: new.error,
                ..form
            }) && new.password@ == form.password@ + seq![c]
        },
        key == Key::Backspace ==> {
            &&& a is Nothing
            &&& new.error@.len() == 0
            &&& form.focus == Field::Server ==> new == (LoginApp {
                server: new.server,
                error: new.error,
                ..form
            }) && (form.server@.len() > 0 ==> new.server@ == form.server@.drop_last())
            &&& form.focus == Field::Username ==> new == (LoginApp {
                username: new.username,
                error: new.error,
                ..form
            }) && (form.username@.len() > 0 ==> new.username@ == form.username@.drop_last())
            &&& form.focus == Field::Password ==> new == (LoginApp {
                password: new.password,
                error: new.error,
                ..form
            }) && (form.password@.len() > 0 ==> new.password@ == form.password@.drop_last())
        },
        key == Key::Enter ==> form.submits(new, a),
        key == Key::Up || key == Key::Down || key == Key::BackTab || key == Key::Other || (key is F
            && key != Key::F(2)) ==> new == form && a is Nothing,
{
}

/// A field of the form as it is seen: a border with its label, cyan where it has the keys, and
/// in it the text.
pub open spec fn boxed(label: Seq<char>, shown: Seq<char>, focused: bool) -> WidgetView {
    WidgetView::Paragraph {
        block: Some(
            BlockView {
                title: seq![' '] + label + seq![' '],
                border_style: if focused {
                    Style { fg: Some(Color::Cyan), bold: true, ..bare() }
                } else {
                    Style { fg: Some(Color::DarkGray), ..bare() }
                },
                rounded: false,
                style: bare(),
            },
        ),
        lines: style::text_lines(
            if focused {
                shown + "▊"@
            } else {
                shown
            },
        ),
        wrap: false,
    }
}

/// One line without a border.
pub open spec fn plain(spans: Seq<style::SpanView>) -> WidgetView {
    WidgetView::Paragraph { block: None, lines: seq![line(spans)], wrap: false }
}

/// The form as it is seen: a heading, the three fields with a dot for each character of the
/// password, the mode, and the news: that something is being done, an error, or the keys.
pub proof fn law_the_form_is_shown(form: LoginApp, p: FormPlaces)
    requires
        p.wf(),
    ensures
        form.drawn(p).len() == 8,
        form.drawn(p)[0] == (PlacedView { area: p.area, widget: WidgetView::Clear }),
        form.drawn(p)[1] == (PlacedView {
            area: p.area,
            widget: WidgetView::Border(
                BlockView {
                    title: if form.register_mode {
                        " Register "@
                    } else {
                        " Log in "@
                    },
                    border_style: Style { fg: Some(Color::Cyan), bold: true, ..bare() },
                    rounded: true,
                    style: bare(),
                },
            ),
        }),
        form.drawn(p)[2] == (PlacedView {
            area: p.rows@[0],
            widget: plain(
                seq![
                    run(
                        "tuimessager — "@ + (if form.register_mode {
                            "create a new account on your server"@
                        } else {
                            "self-hosted server (no Discord)"@
                        }),
                        Style { fg: Some(Color::Cyan), bold: true, ..bare() },
                    ),
                ],
            ),
        }),
        form.drawn(p)[3] == (PlacedView {
            area: p.rows@[1],
            widget: boxed("Server"@, form.server@, form.focus == Field::Server),
        }),
        form.drawn(p)[4] == (PlacedView {
            area: p.rows@[2],
            widget: boxed("Username"@, form.username@, form.focus == Field::Username),
        }),
        form.drawn(p)[5] == (PlacedView {
            area: p.rows@[3],
            widget: boxed(
                "Password"@,
                Seq::new(form.password@.len(), |i: int| '•'),
                form.focus == Field::Password,
            ),
        }),
        form.drawn(p)[6] == (PlacedView {
            area: p.rows@[4],
            widget: plain(
                seq![
                    run("Mode: "@, bare()),
                    if form.register_mode {
                        run("[Register]"@, Style { fg: Some(Color::Yellow), bold: true, ..bare() })
                    } else {
                        run("[Log in]"@, Style { fg: Some(Color::Green), bold: true, ..bare() })
                    },
                    tinted("  (F2 to switch)"@, Color::DarkGray),
                ],
            ),
        }),
        form.drawn(p)[7] == (PlacedView {
            area: p.rows@[5],
            widget: plain(
                seq![
                    if form.busy {
                        tinted("working…"@, Color::Yellow)
                    } else if form.error@.len() > 0 {
                        tinted(form.error@, Color::Red)
                    } else {
                        tinted(
                            "Tab move · Enter submit · F2 login/register · Esc quit"@,
                            Color::DarkGray,
                        )
                    },
                ],
            ),
        }),
{
    reveal_strlit("");
    reveal_strlit(" ");
    assert(" "@ =~= seq![' ']);
    assert(""@ =~= Seq::<char>::empty());
    assert(form.server@ + ""@ =~= form.server@);
    assert(form.username@ + ""@ =~= form.username@);
    let dots = Seq::new(form.password@.len(), |i: int| '•');
    assert(dots + ""@ =~= dots);
    let mode = seq![
        run("Mode: "@, bare()),
        if form.register_mode {
            run("[Register]"@, Style { fg: Some(Color::Yellow), bold: true, ..bare() })
        } else {
            run("[Log in]"@, Style { fg: Some(Color::Green), bold: true, ..bare() })
        },
        tinted("  (F2 to switch)"@, Color::DarkGray),
    ];
    assert(form.mode_line().spans =~= mode);
    assert(form.mode_line() == line(mode));
}

// ---------------------------------------------------------------------------
// Options
// ---------------------------------------------------------------------------

/// The token to start with is the one that the environment names. Where that is missing or
/// blank it is the one in the file, without the white space around it, if the options let it
/// be kept there.
pub proof fn law_where_the_token_comes_from(
    named: Option<String>,
    store: Seq<char>,
    file: Option<String>,
)
    ensures
        ({
            let unnamed = named is None || text::is_blank(named->0@);
            let kept = store == "auto"@ || store == "plain"@;
            let token = config::token_to_use(named, store, file);
            &&& !unnamed ==> token == Some(named->0@)
            &&& unnamed && kept && file is Some && !text::is_blank(file->0@) ==> token == Some(
                text::trimmed(file->0@),
            )
            &&& unnamed && (!kept || file is None || text::is_blank(file->0@)) ==> token is None
        }),
{
}

/// A directory for this program lies below the one that the environment names, else below the
/// platform's, else below a fixed one.
pub proof fn law_where_files_are_kept(
    named: Option<String>,
    platform: Option<String>,
    fixed: Seq<char>,
    base: Seq<char>,
)
    requires
        base == (if named is Some {
            named->0@
        } else if platform is Some {
            platform->0@
        } else {
            fixed
        }),
        base.len() > 0,
        base.last() != '/',
    ensures
        config::dir_below(named, platform, fixed) == base + "/tuimessager"@,
{
    reveal_strlit("tuimessager");
    reveal_strlit("/tuimessager");
    assert("tuimessager"@[0] == 't');
    assert(base + seq!['/'] + "tuimessager"@ =~= base + "/tuimessager"@);
}

/// Accounts can be made unless the variable says `0` or `false`, in whatever case.
pub proof fn law_who_may_register(value: Seq<char>)
    ensures
        server_config::allows(value, text::lowercased(value)) <==> !(value == "0"@
            || text::lowercased(value) == "false"@),
{
}

// ---------------------------------------------------------------------------
// Clocks and encodings
// ---------------------------------------------------------------------------

proof fn lemma_two_digits(n: nat)
    requires
        n < 100,
    ensures
        time::two_digits(n).len() == 2,
        text::number_of(time::two_digits(n)) == n,
{
    let d = time::two_digits(n);
    reveal_with_fuel(text::number_of, 3);
    assert(d.drop_last() =~= seq![d[0]]);
    assert(seq![d[0]].drop_last() =~= Seq::<char>::empty());
}

/// A clock with 24 hours shows the hour and the minute in two digits each, with a colon
/// between them. One with 12 hours shows 12 in place of 0, no hour above 12, and which half of
/// the day it is.
pub proof fn law_a_clock_shows_the_time(h: u32, m: u32)
    requires
        h < 24,
        m < 60,
    ensures
        ({
            let face = time::clock_face(h, m, true);
            &&& face.len() == 5
            &&& text::number_of(face.subrange(0, 2)) == h
            &&& face[2] == ':'
            &&& text::number_of(face.subrange(3, 5)) == m
        }),
        ({
            let face = time::clock_face(h, m, false);
            &&& face.len() == 8
            &&& text::number_of(face.subrange(0, 2)) == (if h == 0 {
                12
            } else if h <= 12 {
                h as int
            } else {
                h - 12
            })
            &&& face[2] == ':'
            &&& text::number_of(face.subrange(3, 5)) == m
            &&& face.subrange(5, 8) == (if h < 12 {
                seq![' ', 'A', 'M']
            } else {
                seq![' ', 'P', 'M']
            })
        }),
{
    reveal_strlit(":");
    reveal_strlit(" AM");
    reveal_strlit(" PM");
    lemma_two_digits(h as nat);
    lemma_two_digits(m as nat);
    lemma_two_digits(time::hour_of_12(h));
    let long = time::clock_face(h, m, true);
    assert(long.subrange(0, 2) =~= time::two_digits(h as nat));
    assert(long.subrange(3, 5) =~= time::two_digits(m as nat));
    let short = time::clock_face(h, m, false);
    assert(short.subrange(0, 2) =~= time::two_digits(time::hour_of_12(h)));
    assert(short.subrange(3, 5) =~= time::two_digits(m as nat));
    assert(short.subrange(5, 8) =~= (if h < 12 {
        seq![' ', 'A', 'M']
    } else {
        seq![' ', 'P', 'M']
    }));
}

/// The number that a digit or a capital letter stands for in base sixteen.
pub open spec fn hex_value(c: char) -> int {
    if '0' <= c <= '9' {
        c as int - '0' as int
    } else if 'A' <= c <= 'F' {
        10 + c as int - 'A' as int
    } else {
        -1
    }
}

/// A query is encoded byte by byte: letters, digits and `*-._` stay, a space is a plus sign,
/// and any other byte is a percent sign and the two digits of its number in base sixteen.
pub proof fn law_queries_are_encoded_byte_by_byte(a: Seq<u8>, b: u8)
    ensures
        codec::form_text(Seq::empty()) == Seq::<char>::empty(),
        codec::form_text(a.push(b)) == codec::form_text(a) + codec::form_text(seq![b]),
        b == 0x20 ==> codec::form_text(seq![b]) == seq!['+'],
        (0x30 <= b <= 0x39 || 0x41 <= b <= 0x5a || 0x61 <= b <= 0x7a || b == 0x2a || b == 0x2d || b
            == 0x2e || b == 0x5f) ==> codec::form_text(seq![b]) == seq![b as char],
        b != 0x20 && !(0x30 <= b <= 0x39 || 0x41 <= b <= 0x5a || 0x61 <= b <= 0x7a || b == 0x2a || b
            == 0x2d || b == 0x2e || b == 0x5f) ==> {
            let t = codec::form_text(seq![b]);
            t.len() == 3 && t[0] == '%' && 0 <= hex_value(t[1]) < 16 && 0 <= hex_value(t[2]) < 16
                && 16 * hex_value(t[1]) + hex_value(t[2]) == b
        },
    decreases a.len(),
{
    let one = seq![b];
    assert(one.drop_first() =~= Seq::<u8>::empty());
    reveal_with_fuel(codec::form_text, 2);
    assert(codec::form_text(one) =~= codec::form_byte(b));
    if a.len() == 0 {
        assert(a.push(b) =~= one);
        assert(codec::form_text(a) + codec::form_text(one) =~= codec::form_text(one));
    } else {
        law_queries_are_encoded_byte_by_byte(a.drop_first(), b);
        assert(a.push(b).drop_first() =~= a.drop_first().push(b));
        assert(codec::form_text(a.push(b)) =~= codec::form_text(a) + codec::form_text(one));
    }
}

/// A session token is `tm_` and the 32 digits of its identifier.
pub proof fn law_tokens_have_a_form(x: u128)
    ensures
        id::token_of(x).len() == 35,
        id::token_of(x).take(3) == seq!['t', 'm', '_'],
        id::token_of(x).skip(3) == id::simple_text(x),
{
    reveal_strlit("tm_");
    assert(id::token_of(x).take(3) =~= seq!['t', 'm', '_']);
    assert(id::token_of(x).skip(3) =~= id::simple_text(x));
}

/// Where a token is stored, the server is asked whose it is; else the name and the password
/// are asked for.
pub proof fn law_the_token_comes_first(
    server: String,
    address: Seq<char>,
    slashes: nat,
    token: String,
    tried: (LoginFlow, LoginAction),
    asked: (LoginFlow, LoginAction),
)
    requires
        server@ == slashed(address, slashes),
        address.len() > 0,
        address[0] != '/',
        address.last() != '/',
        login::begins_login_flow(server, Some(token), tried),
        login::begins_login_flow(server, None, asked),
    ensures
        tried.0 == (LoginFlow::Token { server, token }),
        tried.1 matches LoginAction::Request { notice, request } && notice is None
            && request.method == Method::Get && request.url@ == address + "/api/v1/me"@
            && request.token == Some(token) && request.payload is Nothing,
        asked.0 == (LoginFlow::Asking { server }),
        asked.1 matches LoginAction::Ask { notice } && notice is None,
{
    text::law_one_character_is_taken_away(address, '/', slashes);
}

/// The server to talk to is the one that the environment names, unless that is blank.
pub proof fn law_which_server_is_used(named: String, default: Seq<char>)
    ensures
        !text::is_blank(named@) ==> config::server_named(Some(named), default) == named@,
        text::is_blank(named@) ==> config::server_named(Some(named), default) == default,
        config::server_named(None, default) == default,
{
}

/// Without any variable the server listens on port 3000 everywhere, keeps its data where it
/// was started, and lets everyone register. The database is in the data directory, unless it
/// has a path of its own.
pub proof fn law_what_the_server_is_started_with(
    bare: server_config::Config,
    set: server_config::Config,
    bind: String,
    data_dir: String,
    database_path: String,
    moved: server_config::Config,
    allow: String,
)
    requires
        bare.comes_from(None, None, None, None),
        moved.comes_from(None, Some(data_dir), None, Some(allow)),
        set.comes_from(Some(bind), Some(data_dir), Some(database_path), Some(allow)),
        data_dir@.len() > 0,
        data_dir@.last() != '/',
    ensures
        bare.bind@ == "0.0.0.0:3000"@,
        bare.data_dir@ == "."@,
        bare.database_path@ == "./tuimessager.db"@,
        bare.allow_registration,
        moved.data_dir@ == data_dir@,
        moved.database_path@ == data_dir@ + "/tuimessager.db"@,
        set.bind@ == bind@,
        set.data_dir@ == data_dir@,
        set.database_path@ == database_path@,
        set.allow_registration <==> !(allow@ == "0"@ || text::lowercased(allow@) == "false"@),
{
    reveal_strlit(".");
    reveal_strlit("tuimessager.db");
    reveal_strlit("./tuimessager.db");
    reveal_strlit("/tuimessager.db");
    assert("."@ + seq!['/'] + "tuimessager.db"@ =~= "./tuimessager.db"@);
    assert("tuimessager.db"@[0] == 't');
    assert(data_dir@ + seq!['/'] + "tuimessager.db"@ =~= data_dir@ + "/tuimessager.db"@);
}

/// A text gets on the clipboard between `ESC ] 52 ; c ;` and a bell, in base64.
pub proof fn law_the_clipboard_is_reached(s: Seq<char>)
    ensures
        codec::clipboard_text(s) == seq!['\u{1b}', ']', '5', '2', ';', 'c', ';']
            + codec::base64_text(vstd::utf8::encode_utf8(s)) + seq!['\u{7}'],
{
    reveal_strlit("\u{1b}]52;c;");
    reveal_strlit("\u{7}");
    assert("\u{1b}]52;c;"@ =~= seq!['\u{1b}', ']', '5', '2', ';', 'c', ';']);
    assert("\u{7}"@ =~= seq!['\u{7}']);
}

/// Where the form is high enough, its rows stand below each other inside its border: one row
/// for the heading, three for each field, one for the mode, and one for what there is to say.
pub proof fn law_the_form_is_laid_out(area: Rect, rows: Seq<Rect>, i: int)
    requires
        ui::parted(true, login::form_shares(), ui::inside(area), rows),
        area.x + area.width <= u16::MAX,
        area.y + area.height <= u16::MAX,
        2 <= area.width,
        14 <= area.height,
        0 <= i < 6,
    ensures
        rows.len() == 7,
        rows[0].y == area.y + 1,
        rows[i].x == area.x + 1,
        rows[i].width == area.width - 2,
        rows[i].height == (if 1 <= i <= 3 {
            3int
        } else {
            1
        }),
        rows[i + 1].y == rows[i].y + rows[i].height,
{
    reveal_with_fuel(ui::asked, 8);
    assert(ui::agree(login::form_shares(), area.height - 2));
    assert(rows[0].y == ui::edge(login::form_shares(), area.y + 1, area.height - 2, 0));
}

} // verus!

//! Options of the terminal client, and where they are kept: `config.toml`, `keymap.toml`
//! and `theme.toml` in the user's directory for configuration, the session token in the one
//! for state.

use crate::text;
use vstd::prelude::*;

verus! {

/// The directory for this program below a base directory: the one that the environment
/// names, else the platform's, else a fixed one.
pub open spec fn dir_below(
    named: Option<String>,
    platform: Option<String>,
    fixed: Seq<char>,
) -> Seq<char> {
    let base = match named {
        Some(d) => d@,
        None => match platform {
            Some(d) => d@,
            None => fixed,
        },
    };
    text::path_below(base, "tuimessager"@)
}

fn directory(named: &Option<String>, platform: &Option<String>, fixed: &str) -> (r: String)
    ensures
        r@ == dir_below(*named, *platform, fixed@),
{
    let base = match named {
        Some(d) => d.as_str(),
        None => match platform {
            Some(d) => d.as_str(),
            None => fixed,
        },
    };
    text::join_path(base, "tuimessager")
}

/// Where the options are kept, by `XDG_CONFIG_HOME` and the platform's directory for
/// configuration.
pub fn config_dir(xdg_config_home: &Option<String>, platform: &Option<String>) -> (r: String)
    ensures
        r@ == dir_below(*xdg_config_home, *platform, "~/.config"@),
{
    directory(xdg_config_home, platform, "~/.config")
}

/// Where state is kept, by `XDG_STATE_HOME` and the platform's directory for state.
pub fn state_dir(xdg_state_home: &Option<String>, platform: &Option<String>) -> (r: String)
    ensures
        r@ == dir_below(*xdg_state_home, *platform, "~/.local/state"@),
{
    directory(xdg_state_home, platform, "~/.local/state")
}

/// The file that keeps the session token.
pub fn token_file(xdg_state_home: &Option<String>, platform: &Option<String>) -> (r: String)
    ensures
        r@ == text::path_below(
            dir_below(*xdg_state_home, *platform, "~/.local/state"@),
            "token"@,
        ),
{
    let dir = state_dir(xdg_state_home, platform);
    text::join_path(dir.as_str(), "token")
}

#[derive(Debug)]
pub struct AppOptions {
    pub server_url: String,
    pub display: DisplayOptions,
    pub composer: ComposerOptions,
    pub notifications: NotificationOptions,
    pub credentials: CredentialOptions,
}

#[derive(Debug)]
pub struct DisplayOptions {
    pub show_avatars: bool,
    pub show_images: bool,
    pub image_protocol: String,
    pub hour_format_24: bool,
    pub circular_avatars: bool,
}

#[derive(Debug)]
pub struct ComposerOptions {
    pub ping_on_reply: bool,
}

#[derive(Debug)]
pub struct NotificationOptions {
    pub desktop_notifications: bool,
}

#[derive(Debug)]
pub struct CredentialOptions {
    /// Where the session token is kept: `auto` (environment, then file) or `plain`.
    pub store: String,
}

impl DisplayOptions {
    pub open spec fn is_default(self) -> bool {
        &&& self.show_avatars
        &&& self.show_images
        &&& self.image_protocol@ == "auto"@
        &&& self.hour_format_24
        &&& !self.circular_avatars
    }
}

impl Default for DisplayOptions {
    fn default() -> (r: DisplayOptions)
        ensures
            r.is_default(),
    {
        DisplayOptions {
            show_avatars: true,
            show_images: true,
            image_protocol: "auto".to_owned(),
            hour_format_24: true,
            circular_avatars: false,
        }
    }
}

impl Default for ComposerOptions {
    fn default() -> (r: ComposerOptions)
        ensures
            r.ping_on_reply,
    {
        ComposerOptions { ping_on_reply: true }
    }
}

impl Default for NotificationOptions {
    fn default() -> (r: NotificationOptions)
        ensures
            r.desktop_notifications,
    {
        NotificationOptions { desktop_notifications: true }
    }
}

impl Default for CredentialOptions {
    fn default() -> (r: CredentialOptions)
        ensures
            r.store@ == "auto"@,
    {
        CredentialOptions { store: "auto".to_owned() }
    }
}

impl Default for AppOptions {
    fn default() -> (r: AppOptions)
        ensures
            r.server_url@ == "http://127.0.0.1:3000"@,
            r.display.is_default(),
            r.composer.ping_on_reply,
            r.notifications.desktop_notifications,
            r.credentials.store@ == "auto"@,
    {
        AppOptions {
            server_url: "http://127.0.0.1:3000".to_owned(),
            display: DisplayOptions::default(),
            composer: ComposerOptions::default(),
            notifications: NotificationOptions::default(),
            credentials: CredentialOptions::default(),
        }
    }
}

/// The keys that can be chosen.
#[derive(Debug)]
pub struct Keymap {
    pub leader: String,
}

impl Default for Keymap {
    fn default() -> (r: Keymap)
        ensures
            r.leader@ == Seq::<char>::empty(),
    {
        Keymap { leader: String::new() }
    }
}

/// The leader key of a key map that names none.
pub fn default_leader() -> (r: String)
    ensures
        r@ == "space"@,
{
    "space".to_owned()
}

/// What the looks are made of.
#[derive(Debug)]
pub struct Theme {
    pub selection_marker: String,
}

impl Default for Theme {
    fn default() -> (r: Theme)
        ensures
            r.selection_marker@ == Seq::<char>::empty(),
    {
        Theme { selection_marker: String::new() }
    }
}

impl Theme {
    pub fn selection_marker_or_default(&self) -> (r: &str)
        ensures
            r@ == (if self.selection_marker@.len() == 0 {
                "▸ "@
            } else {
                self.selection_marker@
            }),
    {
        if self.selection_marker.as_str().is_empty() {
            "▸ "
        } else {
            self.selection_marker.as_str()
        }
    }
}

/// The session token to start with: the one in the environment where it is not blank, else
/// the one in the file where the options let it be kept there, trimmed.
pub open spec fn token_to_use(
    named: Option<String>,
    store: Seq<char>,
    file: Option<String>,
) -> Option<Seq<char>> {
    if named is Some && !text::is_blank(named->0@) {
        Some(named->0@)
    } else if (store == "auto"@ || store == "plain"@) && file is Some && !text::is_blank(
        file->0@,
    ) {
        Some(text::trimmed(file->0@))
    } else {
        None
    }
}

pub fn load_token(
    named: &Option<String>,
    options: &AppOptions,
    file: &Option<String>,
) -> (r: Option<String>)
    ensures
        match r {
            Some(t) => token_to_use(*named, options.credentials.store@, *file) == Some(t@),
            None => token_to_use(*named, options.credentials.store@, *file) is None,
        },
{
    if let Some(t) = named {
        if !text::blank(t.as_str()) {
            return Some(t.clone());
        }
    }
    let store = options.credentials.store.as_str();
    if text::same_text(store, "auto") || text::same_text(store, "plain") {
        if let Some(t) = file {
            if !text::blank(t.as_str()) {
                return Some(text::trim(t.as_str()));
            }
        }
    }
    None
}

/// The server that the environment names where it is not blank, else the other one.
pub open spec fn server_named(named: Option<String>, default: Seq<char>) -> Seq<char> {
    if named is Some && !text::is_blank(named->0@) {
        named->0@
    } else {
        default
    }
}

/// The server to talk to: the one that the environment names where it is not blank, else the
/// one in the options.
pub fn server_to_use(named: &Option<String>, options: &AppOptions) -> (r: String)
    ensures
        r@ == (if named is Some && !text::is_blank(named->0@) {
            named->0@
        } else {
            options.server_url@
        }),
        r@ == server_named(*named, options.server_url@),
{
    if let Some(url) = named {
        if !text::blank(url.as_str()) {
            return url.clone();
        }
    }
    options.server_url.clone()
}

/// The options that the program starts with, as a file to begin from.
pub fn default_config_text() -> (r: &'static str)
    ensures
        r@ == "# tuimessager config (Concord-style, Discord-free)\nserver_url = \"http://127.0.0.1:3000\"\n\n[display]\nshow_avatars = true\nshow_images = true\nimage_protocol = \"auto\"\nhour_format_24 = true\ncircular_avatars = false\n\n[composer]\nping_on_reply = true\n\n[notifications]\ndesktop_notifications = true\n\n[credentials]\nstore = \"auto\"\n"@,
{
    "# tuimessager config (Concord-style, Discord-free)\nserver_url = \"http://127.0.0.1:3000\"\n\n[display]\nshow_avatars = true\nshow_images = true\nimage_protocol = \"auto\"\nhour_format_24 = true\ncircular_avatars = false\n\n[composer]\nping_on_reply = true\n\n[notifications]\ndesktop_notifications = true\n\n[credentials]\nstore = \"auto\"\n"
}

/// A truth value in the options' file.
pub open spec fn truth(b: bool) -> Seq<char> {
    if b {
        "true"@
    } else {
        "false"@
    }
}

/// A line of the options' file that sets a truth value.
pub open spec fn truth_line(name: Seq<char>, b: bool) -> Seq<char> {
    name + " = "@ + truth(b) + seq!['\n']
}

/// A line of the options' file that sets a text.
pub open spec fn text_line(name: Seq<char>, s: Seq<char>) -> Seq<char> {
    name + " = "@ + seq!['"'] + s + seq!['"', '\n']
}

/// A line of the options' file that starts a table, behind an empty one.
pub open spec fn table_line(name: Seq<char>) -> Seq<char> {
    seq!['\n', '['] + name + seq![']', '\n']
}

/// The options' file for some options.
pub open spec fn config_text(o: AppOptions) -> Seq<char> {
    "# tuimessager config (Concord-style, Discord-free)"@ + seq!['\n'] + text_line(
        "server_url"@,
        o.server_url@,
    ) + table_line("display"@) + truth_line("show_avatars"@, o.display.show_avatars) + truth_line(
        "show_images"@,
        o.display.show_images,
    ) + text_line("image_protocol"@, o.display.image_protocol@) + truth_line(
        "hour_format_24"@,
        o.display.hour_format_24,
    ) + truth_line("circular_avatars"@, o.display.circular_avatars) + table_line("composer"@)
        + truth_line("ping_on_reply"@, o.composer.ping_on_reply) + table_line("notifications"@)
        + truth_line("desktop_notifications"@, o.notifications.desktop_notifications)
        + table_line("credentials"@) + text_line("store"@, o.credentials.store@)
}

/// The file to begin from sets every option to what it is without a file.
pub proof fn law_default_file_sets_the_defaults(o: AppOptions)
    requires
        o.server_url@ == "http://127.0.0.1:3000"@,
        o.display.is_default(),
        o.composer.ping_on_reply,
        o.notifications.desktop_notifications,
        o.credentials.store@ == "auto"@,
    ensures
        config_text(o) == "# tuimessager config (Concord-style, Discord-free)\nserver_url = \"http://127.0.0.1:3000\"\n\n[display]\nshow_avatars = true\nshow_images = true\nimage_protocol = \"auto\"\nhour_format_24 = true\ncircular_avatars = false\n\n[composer]\nping_on_reply = true\n\n[notifications]\ndesktop_notifications = true\n\n[credentials]\nstore = \"auto\"\n"@,
{
    reveal_strlit("# tuimessager config (Concord-style, Discord-free)\nserver_url = \"http://127.0.0.1:3000\"\n\n[display]\nshow_avatars = true\nshow_images = true\nimage_protocol = \"auto\"\nhour_format_24 = true\ncircular_avatars = false\n\n[composer]\nping_on_reply = true\n\n[notifications]\ndesktop_notifications = true\n\n[credentials]\nstore = \"auto\"\n");
    reveal_strlit("# tuimessager config (Concord-style, Discord-free)");
    reveal_strlit("server_url");
    reveal_strlit("display");
    reveal_strlit("show_avatars");
    reveal_strlit("show_images");
    reveal_strlit("image_protocol");
    reveal_strlit("hour_format_24");
    reveal_strlit("circular_avatars");
    reveal_strlit("composer");
    reveal_strlit("ping_on_reply");
    reveal_strlit("notifications");
    reveal_strlit("desktop_notifications");
    reveal_strlit("credentials");
    reveal_strlit("store");
    reveal_strlit(" = ");
    reveal_strlit("true");
    reveal_strlit("false");
    reveal_strlit("auto");
    reveal_strlit("http://127.0.0.1:3000");
    assert(config_text(o) =~= "# tuimessager config (Concord-style, Discord-free)\nserver_url = \"http://127.0.0.1:3000\"\n\n[display]\nshow_avatars = true\nshow_images = true\nimage_protocol = \"auto\"\nhour_format_24 = true\ncircular_avatars = false\n\n[composer]\nping_on_reply = true\n\n[notifications]\ndesktop_notifications = true\n\n[credentials]\nstore = \"auto\"\n"@);
}

/// A text that can stand between quotes.
pub open spec fn is_quotable(s: Seq<char>) -> bool {
    forall|i: int| 0 <= i < s.len() ==> #[trigger] s[i] != '"'
}

proof fn lemma_same_end(a: Seq<char>, b: Seq<char>, end: Seq<char>)
    requires
        a + end == b + end,
    ensures
        a == b,
{
    assert((a + end).len() == (b + end).len());
    assert((a + end).take(a.len() as int) =~= a);
    assert((b + end).take(b.len() as int) =~= b);
}

proof fn lemma_same_truth_line(a: Seq<char>, b: Seq<char>, name: Seq<char>, x: bool, y: bool)
    requires
        a + truth_line(name, x) == b + truth_line(name, y),
    ensures
        a == b,
        x == y,
{
    reveal_strlit("true");
    reveal_strlit("false");
    let s = a + truth_line(name, x);
    let t = b + truth_line(name, y);
    assert(s[s.len() - 3] == if x {
        'u'
    } else {
        's'
    });
    assert(t[t.len() - 3] == if y {
        'u'
    } else {
        's'
    });
    lemma_same_end(a, b, truth_line(name, x));
}

proof fn lemma_same_text_line(
    a: Seq<char>,
    b: Seq<char>,
    name: Seq<char>,
    x: Seq<char>,
    y: Seq<char>,
)
    requires
        a + text_line(name, x) == b + text_line(name, y),
        is_quotable(x),
        is_quotable(y),
    ensures
        a == b,
        x == y,
{
    let s = a + text_line(name, x);
    let t = b + text_line(name, y);
    // The quote before the shorter text would stand in the longer one.
    assert(s[s.len() - 3 - x.len()] == '"');
    assert(t[t.len() - 3 - y.len()] == '"');
    if x.len() < y.len() {
        assert(t[t.len() - 3 - x.len()] == y[y.len() - 1 - x.len()]);
    }
    if y.len() < x.len() {
        assert(s[s.len() - 3 - y.len()] == x[x.len() - 1 - y.len()]);
    }
    assert forall|i: int| 0 <= i < x.len() implies x[i] == y[i] by {
        assert(s[s.len() - 2 - x.len() + i] == x[i]);
        assert(t[t.len() - 2 - y.len() + i] == y[i]);
    }
    assert(x =~= y);
    lemma_same_end(a, b, text_line(name, x));
}

/// A file sets every option: where the files of two are the same, the options are, as long
/// as their texts hold no quotes.
pub proof fn law_a_file_sets_every_option(o: AppOptions, p: AppOptions)
    requires
        config_text(o) == config_text(p),
        is_quotable(o.server_url@) && is_quotable(p.server_url@),
        is_quotable(o.display.image_protocol@) && is_quotable(p.display.image_protocol@),
        is_quotable(o.credentials.store@) && is_quotable(p.credentials.store@),
    ensures
        o.server_url@ == p.server_url@,
        o.display.show_avatars == p.display.show_avatars,
        o.display.show_images == p.display.show_images,
        o.display.image_protocol@ == p.display.image_protocol@,
        o.display.hour_format_24 == p.display.hour_format_24,
        o.display.circular_avatars == p.display.circular_avatars,
        o.composer.ping_on_reply == p.composer.ping_on_reply,
        o.notifications.desktop_notifications == p.notifications.desktop_notifications,
        o.credentials.store@ == p.credentials.store@,
{
    let a0 = "# tuimessager config (Concord-style, Discord-free)"@ + seq!['\n'];
    let b0 = a0;
    let a1 = a0 + text_line("server_url"@, o.server_url@);
    let b1 = b0 + text_line("server_url"@, p.server_url@);
    let a2 = a1 + table_line("display"@);
    let b2 = b1 + table_line("display"@);
    let a3 = a2 + truth_line("show_avatars"@, o.display.show_avatars);
    let b3 = b2 + truth_line("show_avatars"@, p.display.show_avatars);
    let a4 = a3 + truth_line("show_images"@, o.display.show_images);
    let b4 = b3 + truth_line("show_images"@, p.display.show_images);
    let a5 = a4 + text_line("image_protocol"@, o.display.image_protocol@);
    let b5 = b4 + text_line("image_protocol"@, p.display.image_protocol@);
    let a6 = a5 + truth_line("hour_format_24"@, o.display.hour_format_24);
    let b6 = b5 + truth_line("hour_format_24"@, p.display.hour_format_24);
    let a7 = a6 + truth_line("circular_avatars"@, o.display.circular_avatars);
    let b7 = b6 + truth_line("circular_avatars"@, p.display.circular_avatars);
    let a8 = a7 + table_line("composer"@);
    let b8 = b7 + table_line("composer"@);
    let a9 = a8 + truth_line("ping_on_reply"@, o.composer.ping_on_reply);
    let b9 = b8 + truth_line("ping_on_reply"@, p.composer.ping_on_reply);
    let a10 = a9 + table_line("notifications"@);
    let b10 = b9 + table_line("notifications"@);
    let a11 = a10 + truth_line("desktop_notifications"@, o.notifications.desktop_notifications);
    let b11 = b10 + truth_line("desktop_notifications"@, p.notifications.desktop_notifications);
    let a12 = a11 + table_line("credentials"@);
    let b12 = b11 + table_line("credentials"@);
    let a13 = a12 + text_line("store"@, o.credentials.store@);
    let b13 = b12 + text_line("store"@, p.credentials.store@);
    assert(a13 == config_text(o) && b13 == config_text(p));
    lemma_same_text_line(a12, b12, "store"@, o.credentials.store@, p.credentials.store@);
    lemma_same_end(a11, b11, table_line("credentials"@));
    lemma_same_truth_line(a10, b10, "desktop_notifications"@, o.notifications.desktop_notifications, p.notifications.desktop_notifications);
    lemma_same_end(a9, b9, table_line("notifications"@));
    lemma_same_truth_line(a8, b8, "ping_on_reply"@, o.composer.ping_on_reply, p.composer.ping_on_reply);
    lemma_same_end(a7, b7, table_line("composer"@));
    lemma_same_truth_line(a6, b6, "circular_avatars"@, o.display.circular_avatars, p.display.circular_avatars);
    lemma_same_truth_line(a5, b5, "hour_format_24"@, o.display.hour_format_24, p.display.hour_format_24);
    lemma_same_text_line(a4, b4, "image_protocol"@, o.display.image_protocol@, p.display.image_protocol@);
    lemma_same_truth_line(a3, b3, "show_images"@, o.display.show_images, p.display.show_images);
    lemma_same_truth_line(a2, b2, "show_avatars"@, o.display.show_avatars, p.display.show_avatars);
    lemma_same_end(a1, b1, table_line("display"@));
    lemma_same_text_line(a0, b0, "server_url"@, o.server_url@, p.server_url@);
}

} // verus!

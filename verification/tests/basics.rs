use tuimessager::client::{check, Client, Method, Payload};
use tuimessager::codec::clipboard_sequence;
use tuimessager::config::{
    config_dir, default_config_text, default_leader, load_token, server_to_use, state_dir,
    token_file, AppOptions, Keymap, Theme,
};
use tuimessager::exchange::{Action, Step};
use tuimessager::id::{new_token, token_text, Uuid};
use tuimessager::protocol::{Embed, Presence, RegisterRequest};
use tuimessager::routes::{AppState, Request};
use tuimessager::server_config::Config;
use tuimessager::text;
use tuimessager::time::{clock_text, Timestamp};

fn some(s: &str) -> Option<String> {
    Some(s.to_string())
}

#[test]
fn identifiers_read_back() {
    let id = Uuid(0x0123_4567_89ab_4def_8123_4567_89ab_cdef);
    assert_eq!(id.text(), "01234567-89ab-4def-8123-456789abcdef");
    assert_eq!(Uuid::parse(&id.text()), Some(id));
    assert_eq!(Uuid::parse("nope"), None);
    assert_eq!(Uuid::parse_or_nil("nope"), Uuid::nil());
    assert_eq!(token_text(id), "tm_0123456789ab4def8123456789abcdef");
    assert_ne!(new_token(), new_token());
    assert_eq!((Uuid::new_v4().0 >> 76) & 0xf, 4);
}

#[test]
fn times_read_back() {
    let t = Timestamp::parse("2024-01-02T03:04:05.5Z").unwrap();
    assert_eq!((t.secs(), t.nanos()), (1_704_164_645, 500_000_000));
    assert_eq!(t.text(), "2024-01-02T03:04:05.500+00:00");
    assert_eq!(Timestamp::parse(&t.text()), Some(t));
    assert_eq!(Timestamp::parse("soon"), None);
    assert_eq!(Timestamp::new(i64::MAX, 0), None);
    assert_eq!(Timestamp::new(1, 1_500_000_000), None);
    assert!(Timestamp::new(59, 1_500_000_000).is_some());
    let now = Timestamp::now();
    assert!(now.secs() > 1_600_000_000);
    assert_eq!(now.time_of_day(true).len(), 5);
    assert_eq!(now.time_of_day(false).len(), 8);
}

#[test]
fn clocks_show_both_halves_of_the_day() {
    assert_eq!(clock_text(17, 5, true), "17:05");
    assert_eq!(clock_text(17, 5, false), "05:05 PM");
    assert_eq!(clock_text(5, 5, false), "05:05 AM");
    assert_eq!(clock_text(0, 0, false), "12:00 AM");
    assert_eq!(clock_text(12, 59, false), "12:59 PM");
}

#[test]
fn texts_are_trimmed_and_split() {
    assert_eq!(text::trim("\u{3000} a b \n"), "a b");
    assert!(text::blank(" \t\u{a0}"));
    assert!(!text::blank("\u{200b}"));
    assert_eq!(text::trim_end_char("a//", '/'), "a");
    assert_eq!(text::trim_start_char("**a*", '*'), "a*");
    assert_eq!(text::lines("a\r\nb\n\nc\r"), vec!["a", "b", "", "c\r"]);
    assert_eq!(text::lines(""), Vec::<String>::new());
    assert_eq!(text::replace_first("aXbX", "X", "--"), "a--bX");
    assert!(text::contains("héllo", "éll"));
    assert!(text::contains("x", ""));
    assert_eq!(text::strip_prefix("Bearer t", "Bearer "), some("t"));
    assert_eq!(text::strip_prefix("bearer t", "Bearer "), None);
    assert_eq!(text::take_chars("héllo", 2), "hé");
    assert_eq!(text::decimal(0), "0");
    assert_eq!(text::decimal(u64::MAX), "18446744073709551615");
    assert_eq!(text::signed_decimal(i64::MIN), "-9223372036854775808");
    assert_eq!(text::join_path("a", "b"), "a/b");
    assert_eq!(text::join_path("a/", "b"), "a/b");
    assert_eq!(text::join_path("", "b"), "b");
    assert_eq!(text::join_path("a", "/b"), "/b");
}

#[test]
fn defaults() {
    assert_eq!(Presence::default(), Presence::Offline);
    assert!(Embed::default().title.is_none());
    let o = AppOptions::default();
    assert_eq!(o.server_url, "http://127.0.0.1:3000");
    assert!(o.display.show_avatars && o.display.show_images && o.display.hour_format_24);
    assert!(!o.display.circular_avatars);
    assert_eq!(o.display.image_protocol, "auto");
    assert!(o.composer.ping_on_reply && o.notifications.desktop_notifications);
    assert_eq!(o.credentials.store, "auto");
    assert_eq!(Keymap::default().leader, "");
    assert_eq!(default_leader(), "space");
    assert_eq!(Theme::default().selection_marker_or_default(), "▸ ");
    let t = Theme { selection_marker: "> ".to_string() };
    assert_eq!(t.selection_marker_or_default(), "> ");
    let text = default_config_text();
    assert!(text.starts_with("# tuimessager config"));
    assert!(text.contains("\nserver_url = \"http://127.0.0.1:3000\"\n\n[display]\n"));
    assert!(text.ends_with("[credentials]\nstore = \"auto\"\n"));
}

#[test]
fn the_default_file_parses_to_the_defaults() {
    let parsed: toml::Table = default_config_text().parse().unwrap();
    assert_eq!(parsed["server_url"].as_str(), Some("http://127.0.0.1:3000"));
    assert_eq!(parsed["display"]["hour_format_24"].as_bool(), Some(true));
    assert_eq!(parsed["display"]["circular_avatars"].as_bool(), Some(false));
    assert_eq!(parsed["credentials"]["store"].as_str(), Some("auto"));
}

#[test]
fn directories_follow_the_environment() {
    assert_eq!(config_dir(&some("/c"), &some("/p")), "/c/tuimessager");
    assert_eq!(config_dir(&None, &some("/p")), "/p/tuimessager");
    assert_eq!(config_dir(&None, &None), "~/.config/tuimessager");
    assert_eq!(state_dir(&None, &None), "~/.local/state/tuimessager");
    assert_eq!(token_file(&some("/s"), &None), "/s/tuimessager/token");
}

#[test]
fn tokens_come_from_the_environment_first() {
    let mut o = AppOptions::default();
    assert_eq!(load_token(&some(" t "), &o, &some("f")), some(" t "));
    assert_eq!(load_token(&some("  "), &o, &some(" f\n")), some("f"));
    assert_eq!(load_token(&None, &o, &some(" \n")), None);
    assert_eq!(load_token(&None, &o, &None), None);
    o.credentials.store = "plain".to_string();
    assert_eq!(load_token(&None, &o, &some("f")), some("f"));
    o.credentials.store = "keyring".to_string();
    assert_eq!(load_token(&None, &o, &some("f")), None);
    assert_eq!(server_to_use(&some("https://x"), &o), "https://x");
    assert_eq!(server_to_use(&some(" "), &o), "http://127.0.0.1:3000");
}

#[test]
fn requests_go_to_the_server() {
    let c = Client::new("https://chat.example//", "tok".to_string());
    assert_eq!(c.base, "https://chat.example");
    assert_eq!(c.ws_url(), "wss://chat.example/api/v1/ws?token=tok");
    assert_eq!(
        Client::new("http://h:1", "t".to_string()).ws_url(),
        "ws://h:1/api/v1/ws?token=t"
    );
    let r = c.me();
    assert_eq!(r.method, Method::Get);
    assert_eq!(r.url, "https://chat.example/api/v1/me");
    assert_eq!(r.token, some("tok"));
    let one = Uuid(1);
    let id = "00000000-0000-0000-0000-000000000001";
    let base = "https://chat.example/api/v1";
    assert_eq!(c.servers().url, format!("{base}/servers"));
    assert_eq!(c.channels(one).url, format!("{base}/servers/{id}/channels"));
    assert_eq!(c.members(one).url, format!("{base}/servers/{id}/members"));
    assert_eq!(c.history(one, None, 50).url, format!("{base}/channels/{id}/messages?limit=50"));
    assert_eq!(
        c.history(one, Some(one), -1).url,
        format!("{base}/channels/{id}/messages?limit=-1&before={id}")
    );
    assert_eq!(
        c.search("a b&c=é*", Some(one)).url,
        format!("{base}/search?query=a+b%26c%3D%C3%A9*&channel_id={id}")
    );
    assert_eq!(c.search("x", None).url, format!("{base}/search?query=x"));
    assert_eq!(c.react(one, "🔥").url, format!("{base}/messages/{id}/reactions/🔥"));
    assert_eq!((c.delete(one).method, c.delete(one).url), (Method::Delete, format!("{base}/messages/{id}")));
    assert_eq!(c.notifications().url, format!("{base}/notifications"));
    assert_eq!(c.logout().method, Method::Post);
    assert_eq!(c.delete_avatar().method, Method::Delete);
    let r = c.edit(one, "new".to_string());
    assert_eq!(r.method, Method::Patch);
    assert!(matches!(r.payload, Payload::Edit(e) if e.content == "new"));
    let r = c.update_me(some("n"), None);
    assert!(matches!(r.payload, Payload::UpdateMe(u) if u.display_name == some("n")));
    let r = c.send_with_nonce(one, "hi".to_string(), Some(one), Uuid(2));
    assert!(matches!(r.payload, Payload::Send(s) if s.nonce == Some(Uuid(2)) && s.reply_to == Some(one)));
    // Each message has a key of its own.
    let key = |r: tuimessager::client::HttpRequest| match r.payload {
        Payload::Send(s) => s.nonce.unwrap(),
        other => panic!("{other:?}"),
    };
    assert_ne!(
        key(c.send(one, "hi".to_string(), None)),
        key(c.send(one, "hi".to_string(), None))
    );
    let r = Client::login("http://h/", "a", "b");
    assert_eq!((r.url.as_str(), r.token), ("http://h/api/v1/login", None));
    let r = Client::register("http://h", "a", "b");
    assert_eq!(r.url, "http://h/api/v1/register");
    assert!(matches!(r.payload, Payload::Register(q) if q.display_name.is_none() && q.name == "a"));
}

#[test]
fn replies_are_held_against_success() {
    assert_eq!(check(200, "200 OK", "x"), Ok(()));
    assert_eq!(check(204, "204 No Content", ""), Ok(()));
    assert_eq!(check(404, "404 Not Found", "gone"), Err("404 Not Found: gone".to_string()));
    assert!(check(199, "199", "").is_err());
    assert!(check(300, "300", "").is_err());
}

#[test]
fn blank_texts_trim_to_nothing() {
    for (s, trimmed) in [("", ""), (" \t\n", ""), ("\u{a0}", ""), (" a b ", "a b"), ("a", "a")] {
        assert_eq!(text::trim(s), trimmed);
        assert_eq!(text::blank(s), trimmed.is_empty());
    }
}

#[test]
fn registration_is_closed_by_the_environment() {
    for (value, open) in [("0", false), ("FALSE", false), ("false", false), ("1", true)] {
        let config = Config::from_env(&None, &None, &None, &some(value));
        assert_eq!(config.allow_registration, open);
        let state = AppState {
            allow_registration: config.allow_registration,
            data_dir: config.data_dir,
        };
        let request = Request::Register(RegisterRequest {
            name: "alice".to_string(),
            display_name: None,
            password: "four".to_string(),
        });
        match state.start(None, request) {
            Step::Ask(_, Action::Query(s)) => {
                assert!(open);
                assert_eq!(s.sql, "SELECT id FROM users WHERE name=?1");
            }
            Step::Ask(_, _) => panic!("the name is looked up first"),
            Step::Done(f) => assert!(!open && f.reply.status == 403),
        }
    }
}

#[test]
fn the_calendar_ends_where_times_do() {
    for (secs, covered) in [
        (-8_334_601_228_801, false),
        (-8_334_601_228_800, true),
        (8_210_266_876_799, true),
        (8_210_266_876_800, false),
    ] {
        match Timestamp::new(secs, 0) {
            Some(t) => {
                assert!(covered);
                assert!(t.text().contains("262"));
                assert_eq!(t.time_of_day(true).len(), 5);
            }
            None => assert!(!covered),
        }
    }
}

#[test]
fn texts_go_to_the_clipboard() {
    assert_eq!(clipboard_sequence("hé").unwrap(), "\u{1b}]52;c;aMOp\u{7}");
    assert_eq!(clipboard_sequence("").unwrap(), "\u{1b}]52;c;\u{7}");
}

#[test]
fn the_default_file_reads_back_as_the_defaults() {
    let file: toml::Table = default_config_text().parse().unwrap();
    let o = AppOptions::default();
    let text_at = |v: &toml::Value| v.as_str().unwrap().to_string();
    let truth_at = |v: &toml::Value| v.as_bool().unwrap();
    assert_eq!(text_at(&file["server_url"]), o.server_url);
    assert_eq!(truth_at(&file["display"]["show_avatars"]), o.display.show_avatars);
    assert_eq!(truth_at(&file["display"]["show_images"]), o.display.show_images);
    assert_eq!(text_at(&file["display"]["image_protocol"]), o.display.image_protocol);
    assert_eq!(truth_at(&file["display"]["hour_format_24"]), o.display.hour_format_24);
    assert_eq!(truth_at(&file["display"]["circular_avatars"]), o.display.circular_avatars);
    assert_eq!(truth_at(&file["composer"]["ping_on_reply"]), o.composer.ping_on_reply);
    assert_eq!(
        truth_at(&file["notifications"]["desktop_notifications"]),
        o.notifications.desktop_notifications
    );
    assert_eq!(text_at(&file["credentials"]["store"]), o.credentials.store);
    assert_eq!(file.len(), 5);
    assert_eq!(file["display"].as_table().unwrap().len(), 5);
}

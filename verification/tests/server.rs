use std::collections::HashMap;

use tuimessager::accounts::{
    avatar_path, sniff_avatar_mime, Auth, Authed, Login, Register, UpdateMe, MAX_AVATAR,
};
use tuimessager::accounts;
use tuimessager::client::{Client, Payload};
use tuimessager::db;
use tuimessager::db::{Statement, Value};
use tuimessager::exchange::{Action, Body, Draw, Event, Finish, Stage, Step};
use tuimessager::id::Uuid;
use tuimessager::messages::{detect_mentions, HistoryQuery, Named, Reacting, Sending};
use tuimessager::protocol::{
    ChannelKind, CreateChannelRequest, CreateServerRequest, EditMessageRequest, LoginRequest,
    Message, RegisterRequest, SearchRequest, SendMessageRequest, SetAvatarRequest, UpdateMeRequest,
    User, WsEvent, PROTOCOL_VERSION,
};
use tuimessager::passwords::check_password;
use tuimessager::rooms::{kind_text, parse_kind};
use tuimessager::routes::{AppState, Request, Socket, SocketAction, SocketEvent};
use tuimessager::server_config::{allows_registration, Config};
use tuimessager::time::Timestamp;

const TINY_PNG_B64: &str = "iVBORw0KGgoAAAANSUhEUgAAAAEAAAABCAYAAAAfFcSJAAAADUlEQVR42mNk+M9QDwADhgGAWjR9awAAAABJRU5ErkJggg==";

struct Server {
    conn: rusqlite::Connection,
    files: HashMap<String, Vec<u8>>,
    state: AppState,
    executed: usize,
}

fn sql_values(args: &Vec<Value>) -> Vec<rusqlite::types::Value> {
    args.iter()
        .map(|v| match v {
            Value::Null => rusqlite::types::Value::Null,
            Value::Int(n) => rusqlite::types::Value::Integer(*n),
            Value::Text(s) => rusqlite::types::Value::Text(s.clone()),
        })
        .collect()
}

fn query(conn: &rusqlite::Connection, s: &Statement) -> Result<Vec<Vec<Value>>, rusqlite::Error> {
    let mut stmt = conn.prepare(&s.sql)?;
    let columns = stmt.column_count();
    let mut rows = stmt.query(rusqlite::params_from_iter(sql_values(&s.args)))?;
    let mut out = Vec::new();
    while let Some(row) = rows.next()? {
        let mut cells = Vec::new();
        for i in 0..columns {
            cells.push(match row.get::<_, rusqlite::types::Value>(i)? {
                rusqlite::types::Value::Null => Value::Null,
                rusqlite::types::Value::Integer(n) => Value::Int(n),
                rusqlite::types::Value::Text(s) => Value::Text(s),
                other => panic!("cell {other:?}"),
            });
        }
        out.push(cells);
    }
    Ok(out)
}

fn execute(conn: &rusqlite::Connection, s: &Statement) -> Result<usize, rusqlite::Error> {
    conn.execute(&s.sql, rusqlite::params_from_iter(sql_values(&s.args)))
}

impl Server {
    fn new() -> Server {
        let conn = rusqlite::Connection::open_in_memory().unwrap();
        conn.execute_batch(db::PRAGMAS).unwrap();
        conn.execute_batch(db::SCHEMA).unwrap();
        let count: i64 = conn.query_row(db::COUNT_SERVERS, [], |r| r.get(0)).unwrap();
        let stamp = Timestamp::now().text();
        let seed =
            db::seed_if_empty(count, Uuid::new_v4(), Uuid::new_v4(), Uuid::new_v4(), &stamp);
        assert_eq!(seed.len(), 3);
        for s in &seed {
            execute(&conn, s).unwrap();
        }
        let state = AppState { allow_registration: true, data_dir: "data".to_string() };
        Server { conn, files: HashMap::new(), state, executed: 0 }
    }

    fn perform(&mut self, action: Action) -> Event {
        match action {
            Action::Query(s) => match query(&self.conn, &s) {
                Ok(rows) => Event::Rows(rows),
                Err(e) => Event::Failed(e.to_string()),
            },
            Action::Execute(s) => {
                self.executed += 1;
                match execute(&self.conn, &s) {
                    Ok(_) => Event::Done,
                    Err(e) => Event::Failed(e.to_string()),
                }
            }
            Action::WriteFile { path, bytes } => {
                self.files.insert(path, bytes);
                Event::Done
            }
            Action::ReadFile(path) => match self.files.get(&path) {
                Some(bytes) => Event::Bytes(bytes.clone()),
                None => Event::Failed("no such file".to_string()),
            },
            Action::RemoveFile(path) => match self.files.remove(&path) {
                Some(_) => Event::Done,
                None => Event::Failed("no such file".to_string()),
            },
        }
    }

    fn ask(&mut self, token: Option<&str>, request: Request) -> Finish {
        let header = token.map(|t| format!("Bearer {t}"));
        let mut step = self.state.start(header, request);
        loop {
            match step {
                Step::Done(finish) => return finish,
                Step::Ask(stage, action) => {
                    let event = self.perform(action);
                    step = self.state.step(stage, event);
                }
            }
        }
    }

    fn register(&mut self, name: &str) -> String {
        let finish = self.ask(
            None,
            Request::Register(RegisterRequest {
                name: name.to_string(),
                display_name: None,
                password: "correct-horse".to_string(),
            }),
        );
        assert_eq!(finish.reply.status, 201);
        match finish.reply.body {
            Body::Auth(a) => a.token,
            other => panic!("{other:?}"),
        }
    }

    fn channel(&mut self, token: &str) -> Uuid {
        let server = match self.ask(Some(token), Request::ListServers).reply.body {
            Body::Servers(v) => v[0].id,
            other => panic!("{other:?}"),
        };
        match self.ask(Some(token), Request::ListChannels(server)).reply.body {
            Body::Channels(v) => v[0].id,
            other => panic!("{other:?}"),
        }
    }

    fn send(&mut self, token: &str, channel: Uuid, content: &str, nonce: Option<Uuid>) -> Finish {
        self.ask(
            Some(token),
            Request::Send(
                channel,
                SendMessageRequest { content: content.to_string(), reply_to: None, nonce },
            ),
        )
    }
}

fn message(finish: Finish) -> Message {
    match finish.reply.body {
        Body::Message(m) => m,
        other => panic!("{other:?}"),
    }
}

fn text(finish: &Finish) -> String {
    match &finish.reply.body {
        Body::Text(t) => t.clone(),
        other => panic!("{other:?}"),
    }
}

fn search_for(query: &str) -> SearchRequest {
    SearchRequest {
        query: query.to_string(),
        server_id: None,
        channel_id: None,
        author: None,
        limit: None,
    }
}

fn draw() -> Draw {
    Draw::new()
}

fn some_user(id: Uuid) -> User {
    User {
        id,
        name: "alice".to_string(),
        display_name: None,
        avatar_url: None,
        bot: false,
        created_at: Timestamp::new(0, 0).unwrap(),
    }
}

#[test]
fn full_api_smoke() {
    let mut app = Server::new();

    // health
    let res = app.ask(None, Request::Health);
    assert_eq!(res.reply.status, 200);

    // register
    let res = app.ask(
        None,
        Request::Register(RegisterRequest {
            name: "alice".to_string(),
            display_name: None,
            password: "correct-horse".to_string(),
        }),
    );
    assert_eq!(res.reply.status, 201);
    let token = match res.reply.body {
        Body::Auth(auth) => auth.token,
        other => panic!("{other:?}"),
    };

    // me
    let res = app.ask(Some(&token), Request::Me);
    assert_eq!(res.reply.status, 200);

    // servers (seeded "general")
    let res = app.ask(Some(&token), Request::ListServers);
    assert_eq!(res.reply.status, 200);
    let server_id = match res.reply.body {
        Body::Servers(v) => {
            assert_eq!(v[0].name, "general");
            v[0].id
        }
        other => panic!("{other:?}"),
    };

    // channels
    let res = app.ask(Some(&token), Request::ListChannels(server_id));
    assert_eq!(res.reply.status, 200);
    let channel_id = match res.reply.body {
        Body::Channels(v) => v[0].id,
        other => panic!("{other:?}"),
    };

    // send
    let res = app.send(&token, channel_id, "hello **world**", None);
    assert_eq!(res.reply.status, 201);
    let msg_id = message(res).id;

    // history
    let res = app.ask(
        Some(&token),
        Request::History(channel_id, HistoryQuery { limit: Some(10), before: None }),
    );
    assert_eq!(res.reply.status, 200);

    // edit
    let res = app.ask(
        Some(&token),
        Request::Edit(msg_id, EditMessageRequest { content: "hello edited".to_string() }),
    );
    assert_eq!(res.reply.status, 200);

    // react toggle
    let res = app.ask(Some(&token), Request::React(msg_id, "🔥".to_string()));
    assert_eq!(res.reply.status, 200);

    // search
    let res = app.ask(Some(&token), Request::Search(search_for("hello")));
    assert_eq!(res.reply.status, 200);

    // update display name
    let res = app.ask(
        Some(&token),
        Request::UpdateMe(UpdateMeRequest {
            display_name: Some("Alice Liddell".to_string()),
            password: None,
        }),
    );
    assert_eq!(res.reply.status, 200);
    match res.reply.body {
        Body::User(me) => assert_eq!(me.display_name, Some("Alice Liddell".to_string())),
        other => panic!("{other:?}"),
    }

    // upload avatar (1x1 PNG)
    let res = app.ask(
        Some(&token),
        Request::SetAvatar(SetAvatarRequest { data_base64: TINY_PNG_B64.to_string() }),
    );
    assert_eq!(res.reply.status, 200);
    let me = match res.reply.body {
        Body::User(me) => me,
        other => panic!("{other:?}"),
    };
    let avatar_path = me.avatar_url.unwrap();
    assert!(avatar_path.ends_with("/avatar"));
    assert_eq!(avatar_path, format!("/api/v1/users/{}/avatar", me.id.text()));

    // serve avatar bytes
    let res = app.ask(None, Request::GetAvatar(me.id));
    assert_eq!(res.reply.status, 200);
    match res.reply.body {
        Body::Image { mime, cache_control, bytes } => {
            assert_eq!(mime, "image/png");
            assert_eq!(cache_control, "public, max-age=86400");
            assert_eq!(bytes.len(), 70);
        }
        other => panic!("{other:?}"),
    }

    // delete avatar
    let res = app.ask(Some(&token), Request::DeleteAvatar);
    assert_eq!(res.reply.status, 204);
    let res = app.ask(None, Request::GetAvatar(me.id));
    assert_eq!(res.reply.status, 404);
    assert_eq!(text(&res), "no avatar");

    // delete
    let res = app.ask(Some(&token), Request::Delete(msg_id));
    assert_eq!(res.reply.status, 204);

    // logout invalidates the token: /me must now fail.
    let res = app.ask(Some(&token), Request::Logout);
    assert_eq!(res.reply.status, 204);
    let res = app.ask(Some(&token), Request::Me);
    assert_eq!(res.reply.status, 401);
    assert_eq!(text(&res), "invalid token");
}

#[test]
fn registration_is_checked() {
    let mut app = Server::new();
    let ask = |app: &mut Server, name: &str, password: &str| {
        app.ask(
            None,
            Request::Register(RegisterRequest {
                name: name.to_string(),
                display_name: Some("A".to_string()),
                password: password.to_string(),
            }),
        )
    };
    for (name, password, status, why) in [
        (" ", "long enough", 400, "name/password too short"),
        ("bob", "abc", 400, "name/password too short"),
        ("abcdefghijklmnopqrstuvwxyzabcdefg", "long enough", 400, "name too long"),
    ] {
        let res = ask(&mut app, name, password);
        assert_eq!(res.reply.status, status);
        assert_eq!(text(&res), why);
    }
    assert_eq!(ask(&mut app, "abcdefghijklmnopqrstuvwxyzabcdef", "four").reply.status, 201);
    assert_eq!(ask(&mut app, "bob", "four").reply.status, 201);
    let res = ask(&mut app, "bob", "four");
    assert_eq!(res.reply.status, 409);
    assert_eq!(text(&res), "name taken");
    app.state.allow_registration = false;
    let res = ask(&mut app, "carol", "four");
    assert_eq!(res.reply.status, 403);
    assert_eq!(text(&res), "registration disabled");
}

#[test]
fn sessions_open_and_end() {
    let mut app = Server::new();
    let first = app.register("alice");
    assert!(first.starts_with("tm_"));
    assert_eq!(first.len(), 35);
    let login = |app: &mut Server, name: &str, password: &str| {
        app.ask(
            None,
            Request::Login(LoginRequest {
                name: name.to_string(),
                password: password.to_string(),
            }),
        )
    };
    let res = login(&mut app, "nobody", "correct-horse");
    assert_eq!((res.reply.status, text(&res)), (401, "invalid credentials".to_string()));
    let res = login(&mut app, "alice", "wrong");
    assert_eq!((res.reply.status, text(&res)), (401, "invalid credentials".to_string()));
    let res = login(&mut app, "alice", "correct-horse");
    assert_eq!(res.reply.status, 200);
    let second = match res.reply.body {
        Body::Auth(a) => a.token,
        other => panic!("{other:?}"),
    };
    assert_ne!(first, second);

    // A new password ends the other session only.
    let res = app.ask(
        Some(&second),
        Request::UpdateMe(UpdateMeRequest {
            display_name: None,
            password: Some("battery".to_string()),
        }),
    );
    assert_eq!(res.reply.status, 200);
    assert_eq!(app.ask(Some(&first), Request::Me).reply.status, 401);
    assert_eq!(app.ask(Some(&second), Request::Me).reply.status, 200);
    assert_eq!(login(&mut app, "alice", "correct-horse").reply.status, 401);
    assert_eq!(login(&mut app, "alice", "battery").reply.status, 200);

    let res = app.ask(None, Request::Me);
    assert_eq!((res.reply.status, text(&res)), (401, "missing Bearer token".to_string()));
    let state = AppState { allow_registration: true, data_dir: String::new() };
    match state.begin(Some("Basic x".to_string()), Request::Me, draw()) {
        Step::Done(f) => assert_eq!(f.reply.status, 401),
        other => panic!("{other:?}"),
    }
}

#[test]
fn profile_is_checked() {
    let mut app = Server::new();
    let token = app.register("alice");
    let update = |app: &mut Server, name: Option<&str>, password: Option<&str>| {
        app.ask(
            Some(&token),
            Request::UpdateMe(UpdateMeRequest {
                display_name: name.map(|s| s.to_string()),
                password: password.map(|s| s.to_string()),
            }),
        )
    };
    let long = "x".repeat(65);
    let res = update(&mut app, Some(&long), None);
    assert_eq!((res.reply.status, text(&res)), (400, "display name too long".to_string()));
    let res = update(&mut app, None, Some("abc"));
    assert_eq!((res.reply.status, text(&res)), (400, "password too short".to_string()));
    // Two letters of two bytes each are still only two letters.
    let res = update(&mut app, None, Some("éé"));
    assert_eq!(res.reply.status, 400);
    match update(&mut app, Some("  Al  "), None).reply.body {
        Body::User(u) => assert_eq!(u.display(), "Al"),
        other => panic!("{other:?}"),
    }
    match update(&mut app, Some("   "), None).reply.body {
        Body::User(u) => {
            assert_eq!(u.display_name, None);
            assert_eq!(u.display(), "alice");
        }
        other => panic!("{other:?}"),
    }
}

#[test]
fn images_are_checked() {
    let mut app = Server::new();
    let token = app.register("alice");
    let set = |app: &mut Server, data: &str| {
        app.ask(
            Some(&token),
            Request::SetAvatar(SetAvatarRequest { data_base64: data.to_string() }),
        )
    };
    for (data, why) in [
        ("***", "invalid base64"),
        ("", "image must be 1 byte–1 MiB"),
        ("aGVsbG8=", "image must be PNG, JPEG, GIF or WebP"),
    ] {
        let res = set(&mut app, data);
        assert_eq!((res.reply.status, text(&res)), (400, why.to_string()));
    }
    assert_eq!(set(&mut app, &format!("  {TINY_PNG_B64}\n")).reply.status, 200);
    assert_eq!(MAX_AVATAR, 1_048_576);
    assert_eq!(sniff_avatar_mime(&[0x89, 0x50, 0x4e, 0x47]), Some("image/png"));
    assert_eq!(sniff_avatar_mime(&[0xff, 0xd8, 0xff]), Some("image/jpeg"));
    assert_eq!(sniff_avatar_mime(b"GIF89a"), Some("image/gif"));
    assert_eq!(sniff_avatar_mime(b"RIFF....WEBP."), Some("image/webp"));
    assert_eq!(sniff_avatar_mime(b"RIFF....WEBP"), None);
    assert_eq!(sniff_avatar_mime(b"RIFF....WAVE."), None);
    assert_eq!(
        avatar_path("data/", Uuid(0)),
        "data/avatars/00000000-0000-0000-0000-000000000000"
    );
}

#[test]
fn an_upload_of_the_client_is_stored_byte_for_byte() {
    let mut bytes: Vec<u8> = vec![0xff, 0xd8, 0xff];
    for i in 0..2000u32 {
        bytes.push((i * 7 % 256) as u8);
    }
    let client = Client::new("http://x", "t".to_string());
    let data_base64 = match client.set_avatar_path(&bytes).unwrap().payload {
        Payload::SetAvatar(a) => a.data_base64,
        other => panic!("{other:?}"),
    };
    let step = accounts::set_avatar("d", Uuid(5), SetAvatarRequest { data_base64 });
    match step {
        Step::Ask(_, Action::WriteFile { path, bytes: stored }) => {
            assert_eq!(path, "d/avatars/00000000-0000-0000-0000-000000000005");
            assert_eq!(stored, bytes);
        }
        other => panic!("{other:?}"),
    }
    let step = accounts::serve_avatar(Event::Bytes(bytes.clone()));
    match step {
        Step::Done(Finish { reply, .. }) => match reply.body {
            Body::Image { mime, bytes: served, .. } => {
                assert_eq!(mime, "image/jpeg");
                assert_eq!(served, bytes);
            }
            other => panic!("{other:?}"),
        },
        other => panic!("{other:?}"),
    }
    let mut large = bytes.clone();
    large.resize(MAX_AVATAR, 0);
    assert!(client.set_avatar_path(&large).is_ok());
    large.push(0);
    assert_eq!(
        client.set_avatar_path(&large).unwrap_err(),
        "image must be 1 byte–1 MiB".to_string()
    );
    assert!(client.set_avatar_path(&Vec::new()).is_err());
}

#[test]
fn only_authors_edit_and_delete() {
    let mut app = Server::new();
    let alice = app.register("alice");
    let bob = app.register("bob");
    let channel = app.channel(&alice);
    let id = message(app.send(&alice, channel, "mine", None)).id;
    let edit = |app: &mut Server, token: &str, id: Uuid| {
        app.ask(
            Some(token),
            Request::Edit(id, EditMessageRequest { content: "changed".to_string() }),
        )
    };
    let before = app.executed;
    let res = edit(&mut app, &bob, id);
    assert_eq!((res.reply.status, text(&res)), (403, "not your message".to_string()));
    let res = app.ask(Some(&bob), Request::Delete(id));
    assert_eq!((res.reply.status, text(&res)), (403, "not your message".to_string()));
    let res = edit(&mut app, &alice, Uuid(77));
    assert_eq!((res.reply.status, text(&res)), (404, "not found".to_string()));
    let res = app.ask(Some(&alice), Request::Delete(Uuid(77)));
    assert_eq!((res.reply.status, text(&res)), (404, "not found".to_string()));
    assert_eq!(app.executed, before);

    let res = edit(&mut app, &alice, id);
    match &res.event {
        Some(WsEvent::MessageEdited { message }) => assert_eq!(message.content, "changed"),
        other => panic!("{other:?}"),
    }
    let m = message(res);
    assert_eq!(m.content, "changed");
    assert!(m.edited_at.is_some());
    let res = app.ask(Some(&alice), Request::Delete(id));
    match res.event {
        Some(WsEvent::MessageDeleted { channel_id, id: gone }) => {
            assert_eq!((channel_id, gone), (channel, id));
        }
        other => panic!("{other:?}"),
    }
}

#[test]
fn messages_are_checked_and_sent_once() {
    let mut app = Server::new();
    let token = app.register("alice");
    let channel = app.channel(&token);
    let res = app.send(&token, channel, " \n ", None);
    assert_eq!((res.reply.status, text(&res)), (400, "empty message".to_string()));
    let res = app.send(&token, channel, &"x".repeat(8001), None);
    assert_eq!((res.reply.status, text(&res)), (400, "message too long".to_string()));
    assert_eq!(app.send(&token, channel, &"x".repeat(8000), None).reply.status, 201);

    let nonce = Uuid::new_v4();
    let first = app.send(&token, channel, "once", Some(nonce));
    assert_eq!(first.reply.status, 201);
    assert!(matches!(first.event, Some(WsEvent::MessageCreated { .. })));
    let again = app.send(&token, channel, "once", Some(nonce));
    assert_eq!(again.reply.status, 200);
    assert!(again.event.is_none());
    assert_eq!(message(first).id, message(again).id);
}

#[test]
fn history_comes_in_pages() {
    let mut app = Server::new();
    let token = app.register("alice");
    let channel = app.channel(&token);
    let mut ids = Vec::new();
    for i in 0..5 {
        ids.push(message(app.send(&token, channel, &format!("m{i}"), None)).id);
    }
    let page = |app: &mut Server, limit: Option<i64>, before: Option<Uuid>| {
        let q = HistoryQuery { limit, before: before.map(|u| u.text()) };
        match app.ask(Some(&token), Request::History(channel, q)).reply.body {
            Body::Page(p) => p,
            other => panic!("{other:?}"),
        }
    };
    let p = page(&mut app, Some(2), None);
    assert!(p.has_more);
    assert_eq!(p.items.iter().map(|m| m.id).collect::<Vec<_>>(), ids[3..].to_vec());
    let p = page(&mut app, Some(3), Some(ids[3]));
    assert!(!p.has_more);
    assert_eq!(p.items.iter().map(|m| m.id).collect::<Vec<_>>(), ids[..3].to_vec());
    // A limit below one is one, and without a limit there are fifty.
    assert_eq!(page(&mut app, Some(0), None).items.len(), 1);
    assert_eq!(page(&mut app, None, None).items.len(), 5);
    for i in 0..120 {
        app.send(&token, channel, &format!("n{i}"), None);
    }
    let p = page(&mut app, Some(1000), None);
    assert_eq!(p.items.len(), 100);
    assert!(p.has_more);
    assert_eq!(page(&mut app, None, None).items.len(), 50);
}

#[test]
fn reactions_toggle() {
    let mut app = Server::new();
    let alice = app.register("alice");
    let bob = app.register("bob");
    let channel = app.channel(&alice);
    let id = message(app.send(&alice, channel, "hi", None)).id;
    let react = |app: &mut Server, token: &str| {
        let res = app.ask(Some(token), Request::React(id, "🔥".to_string()));
        assert_eq!(res.reply.status, 200);
        match &res.event {
            Some(WsEvent::ReactionUpdated { channel_id, message_id, .. }) => {
                assert_eq!((*channel_id, *message_id), (channel, id));
            }
            other => panic!("{other:?}"),
        }
        message(res).reactions
    };
    let r = react(&mut app, &alice);
    assert_eq!((r.len(), r[0].count, r[0].me), (1, 1, true));
    let r = react(&mut app, &bob);
    assert_eq!((r.len(), r[0].count, r[0].me), (1, 2, true));
    let r = react(&mut app, &alice);
    assert_eq!((r.len(), r[0].count, r[0].me), (1, 1, false));
    assert_eq!(react(&mut app, &bob).len(), 0);
    let res = app.ask(Some(&alice), Request::React(Uuid(1), "🔥".to_string()));
    assert_eq!((res.reply.status, text(&res)), (404, "not found".to_string()));

    let s = Reacting::Looking {
        me: Uuid(1),
        id: Uuid(2),
        emoji: "x".to_string(),
        channel: Uuid(3),
    };
    match s.next(Event::Failed("disk".to_string()), draw()) {
        Step::Done(f) => assert_eq!((f.reply.status, text(&f)), (500, "disk".to_string())),
        other => panic!("{other:?}"),
    }
}

#[test]
fn search_filters() {
    let mut app = Server::new();
    let alice = app.register("alice");
    let bob = app.register("bob");
    let channel = app.channel(&alice);
    app.send(&alice, channel, "hello from alice", None);
    app.send(&bob, channel, "hello from bob", None);
    app.send(&bob, channel, "bye", None);
    let find = |app: &mut Server, q: SearchRequest| match app
        .ask(Some(&alice), Request::Search(q))
        .reply
        .body
    {
        Body::Messages(v) => v.into_iter().map(|m| m.content).collect::<Vec<_>>(),
        other => panic!("{other:?}"),
    };
    assert_eq!(
        find(&mut app, search_for("hello")),
        vec!["hello from bob".to_string(), "hello from alice".to_string()]
    );
    let q = SearchRequest { author: Some("ali".to_string()), ..search_for("hello") };
    assert_eq!(find(&mut app, q), vec!["hello from alice".to_string()]);
    let q = SearchRequest { limit: Some(1), ..search_for("hello") };
    assert_eq!(find(&mut app, q).len(), 1);
    let q = SearchRequest { channel_id: Some(Uuid(9)), ..search_for("hello") };
    assert_eq!(find(&mut app, q).len(), 0);
    let server = match app.ask(Some(&alice), Request::ListServers).reply.body {
        Body::Servers(v) => v[0].id,
        other => panic!("{other:?}"),
    };
    let q = SearchRequest { server_id: Some(server), ..search_for("hello") };
    assert_eq!(find(&mut app, q).len(), 2);
    let q = SearchRequest { server_id: Some(Uuid(9)), ..search_for("hello") };
    assert_eq!(find(&mut app, q).len(), 0);
}

#[test]
fn mentions_notify_others() {
    let mut app = Server::new();
    let alice = app.register("alice");
    let bob = app.register("bob");
    let channel = app.channel(&alice);
    app.send(&alice, channel, "@bob and @alice, hello", None);
    let list = |app: &mut Server, token: &str| match app
        .ask(Some(token), Request::Notifications)
        .reply
        .body
    {
        Body::Notifications(v) => v,
        other => panic!("{other:?}"),
    };
    assert_eq!(list(&mut app, &alice).len(), 0);
    let n = list(&mut app, &bob);
    assert_eq!(n.len(), 1);
    assert!(!n[0].read);
    assert_eq!(n[0].channel_id, channel);
    assert_eq!(n[0].message.content, "@bob and @alice, hello");
    // A notification of a message that is gone is left out.
    let id = n[0].message.id;
    assert_eq!(app.ask(Some(&alice), Request::Delete(id)).reply.status, 204);
    assert_eq!(list(&mut app, &bob).len(), 0);
}

#[test]
fn mentions_are_found_in_order() {
    let author = some_user(Uuid(1));
    let m = Message {
        id: Uuid(9),
        channel_id: Uuid(8),
        author,
        content: "@a @c".to_string(),
        created_at: Timestamp::new(0, 0).unwrap(),
        edited_at: None,
        reply_to: None,
        pinned: false,
        reactions: vec![],
        attachments: vec![],
        embeds: vec![],
    };
    let users: Vec<Named> = [(1u128, "a"), (2, "b"), (3, "c"), (4, "a")]
        .iter()
        .map(|(id, name)| Named { id: Uuid(*id).text(), name: name.to_string() })
        .collect();
    assert_eq!(detect_mentions(&m, &users, 0), Some(2));
    assert_eq!(detect_mentions(&m, &users, 3), Some(3));
    assert_eq!(detect_mentions(&m, &users, 4), None);
}

#[test]
fn servers_and_channels_are_made() {
    let mut app = Server::new();
    let alice = app.register("alice");
    let bob = app.register("bob");
    let res = app.ask(
        Some(&alice),
        Request::CreateServer(CreateServerRequest { name: " ".to_string(), description: None }),
    );
    assert_eq!((res.reply.status, text(&res)), (400, "name required".to_string()));
    let res = app.ask(
        Some(&alice),
        Request::CreateServer(CreateServerRequest {
            name: "club".to_string(),
            description: Some("ours".to_string()),
        }),
    );
    assert_eq!(res.reply.status, 201);
    let club = match res.reply.body {
        Body::Server(s) => s,
        other => panic!("{other:?}"),
    };
    assert_eq!((club.name.as_str(), club.description.as_deref()), ("club", Some("ours")));
    let names = |app: &mut Server, token: &str| match app
        .ask(Some(token), Request::ListServers)
        .reply
        .body
    {
        Body::Servers(v) => v.into_iter().map(|s| s.name).collect::<Vec<_>>(),
        other => panic!("{other:?}"),
    };
    assert_eq!(names(&mut app, &alice), vec!["club".to_string(), "general".to_string()]);
    assert_eq!(names(&mut app, &bob), vec!["general".to_string()]);

    let res = app.ask(
        Some(&alice),
        Request::CreateChannel(
            club.id,
            CreateChannelRequest { name: "".to_string(), topic: None, kind: None },
        ),
    );
    assert_eq!(res.reply.status, 400);
    let res = app.ask(
        Some(&alice),
        Request::CreateChannel(
            club.id,
            CreateChannelRequest {
                name: "news".to_string(),
                topic: Some("t".to_string()),
                kind: Some(ChannelKind::Announcement),
            },
        ),
    );
    assert_eq!(res.reply.status, 201);
    match res.event {
        Some(WsEvent::ChannelCreated { channel }) => assert_eq!(channel.name, "news"),
        other => panic!("{other:?}"),
    }
    match app.ask(Some(&alice), Request::ListChannels(club.id)).reply.body {
        Body::Channels(v) => {
            assert_eq!(v.len(), 2);
            assert_eq!((v[0].name.as_str(), v[0].kind), ("general", ChannelKind::Text));
            assert_eq!((v[1].name.as_str(), v[1].kind), ("news", ChannelKind::Announcement));
            assert_eq!(v[1].server_id, Some(club.id));
        }
        other => panic!("{other:?}"),
    }
    match app.ask(Some(&alice), Request::ListMembers(club.id)).reply.body {
        Body::Members(v) => {
            assert_eq!(v.len(), 1);
            assert_eq!(v[0].user.name, "alice");
        }
        other => panic!("{other:?}"),
    }
}

#[test]
fn kinds_are_read_back() {
    for kind in [
        ChannelKind::Text,
        ChannelKind::Announcement,
        ChannelKind::Thread,
        ChannelKind::ForumPost,
        ChannelKind::VoicePlaceholder,
        ChannelKind::Direct,
    ] {
        assert_eq!(parse_kind(kind_text(kind)), kind);
    }
    assert_eq!(parse_kind("something else"), ChannelKind::Text);
}

#[test]
fn seeding_happens_once() {
    assert_eq!(db::seed_if_empty(1, Uuid(1), Uuid(2), Uuid(3), "now").len(), 0);
    let s = db::seed_if_empty(0, Uuid(1), Uuid(2), Uuid(3), "now");
    assert_eq!(s.len(), 3);
    assert!(matches!(&s[2].args[4], Value::Int(1)));
}

#[test]
fn bad_rows_and_events_are_errors() {
    let rows = vec![vec![Value::Int(1)]];
    match Auth::Token("t".to_string()).next(Event::Rows(rows), Timestamp::now()) {
        Authed::Refused { status, why } => {
            assert_eq!((status, why.as_str()), (500, "malformed row"));
        }
        other => panic!("{other:?}"),
    }
    match Auth::User("t".to_string()).next(Event::Rows(vec![]), Timestamp::now()) {
        Authed::Refused { status, why } => {
            assert_eq!((status, why.as_str()), (401, "unknown user"));
        }
        other => panic!("{other:?}"),
    }
    match Auth::Token("t".to_string()).next(Event::Done, Timestamp::now()) {
        Authed::Refused { status, why } => {
            assert_eq!((status, why.as_str()), (500, "unexpected event"));
        }
        other => panic!("{other:?}"),
    }
    let row = vec![
        Value::Text("not an id".to_string()),
        Value::Text("n".to_string()),
        Value::Null,
        Value::Int(0),
        Value::Text("t".to_string()),
        Value::Text("hash".to_string()),
    ];
    let step = Login::Finding { password: "p".to_string() }.next(Event::Rows(vec![row]), draw());
    match step {
        Step::Done(f) => assert_eq!(
            (f.reply.status, text(&f)),
            (500, "Invalid column type Text at index: 0, name: uuid".to_string())
        ),
        other => panic!("{other:?}"),
    }
    let step = Register::Reloading { token: "t".to_string() }.next(Event::Rows(vec![]), draw());
    match step {
        Step::Done(f) => assert_eq!((f.reply.status, text(&f)), (500, "user missing".to_string())),
        other => panic!("{other:?}"),
    }
    let step = UpdateMe::Reloading.next(Event::Rows(vec![vec![]]), draw());
    match step {
        Step::Done(f) => assert_eq!((f.reply.status, text(&f)), (500, "malformed row".to_string())),
        other => panic!("{other:?}"),
    }
    let (hydration, _) = db::hydrate_message("m", "u");
    match (Sending::Rereading { hydration }).next(Event::Rows(vec![]), draw()) {
        Step::Done(f) => {
            assert_eq!((f.reply.status, text(&f)), (500, "message missing".to_string()));
        }
        other => panic!("{other:?}"),
    }
    let d = draw();
    assert_eq!(d.stamp, d.now.text());
    let state = AppState { allow_registration: true, data_dir: String::new() };
    match state.next(Stage::Logout, Event::Done, d) {
        Step::Done(f) => assert_eq!(f.reply.status, 204),
        other => panic!("{other:?}"),
    }
}

#[test]
fn a_message_without_an_author_is_an_error() {
    let (h, s) = db::hydrate_message("m", "u");
    assert!(s.sql.starts_with("SELECT id, channel_id"));
    let text = |s: &str| Value::Text(s.to_string());
    let row = vec![
        text("m"),
        text("c"),
        text("a"),
        text("hi"),
        text("2024-01-02T03:04:05Z"),
        Value::Null,
        Value::Null,
        Value::Int(1),
    ];
    let now = Timestamp::now();
    let h = match h.next(Event::Rows(vec![row]), now) {
        db::Hydrated::Ask(h, s) => {
            assert!(matches!(&s.args[0], Value::Text(a) if a == "a"));
            h
        }
        other => panic!("{other:?}"),
    };
    match h.next(Event::Rows(vec![]), now) {
        db::Hydrated::Broken(e) => assert_eq!(e, "author missing"),
        other => panic!("{other:?}"),
    }
}

#[test]
fn sockets_greet_and_pass_on() {
    let mut app = Server::new();
    let token = app.register("alice");
    let now = Timestamp::now();
    let (socket, action) = tuimessager::routes::ws_handler(&Some(token));
    let rows = match action {
        SocketAction::Query(s) => query(&app.conn, &s).unwrap(),
        other => panic!("{other:?}"),
    };
    let (socket, action) = socket.ws_task(SocketEvent::Database(Event::Rows(rows)), now);
    let rows = match action {
        SocketAction::Query(s) => query(&app.conn, &s).unwrap(),
        other => panic!("{other:?}"),
    };
    let (socket, action) = socket.ws_task(SocketEvent::Database(Event::Rows(rows)), now);
    match action {
        SocketAction::Send(WsEvent::Hello { protocol, user }) => {
            assert_eq!(protocol, PROTOCOL_VERSION);
            assert_eq!(user.name, "alice");
        }
        other => panic!("{other:?}"),
    }
    let news = WsEvent::MessageDeleted { channel_id: Uuid(1), id: Uuid(2) };
    let (socket, action) = socket.ws_task(SocketEvent::News(news), now);
    assert!(matches!(action, SocketAction::Send(WsEvent::MessageDeleted { .. })));
    let (socket, action) = socket.ws_task(SocketEvent::Received, now);
    assert!(matches!(action, SocketAction::Wait));
    let (_, action) = socket.ws_task(SocketEvent::Closed, now);
    assert!(matches!(action, SocketAction::Close));
    // An unknown token is not greeted, and served all the same.
    let (socket, _) = tuimessager::routes::ws_handler(&None);
    let (socket, action) = socket.ws_task(SocketEvent::Database(Event::Rows(vec![])), now);
    assert!(matches!((&socket, &action), (Socket::Open, SocketAction::Wait)));
    let (_, action) = socket.ws_task(SocketEvent::SendFailed, now);
    assert!(matches!(action, SocketAction::Close));
}

#[test]
fn the_environment_configures_the_server() {
    let some = |s: &str| Some(s.to_string());
    let c = Config::from_env(&None, &None, &None, &None);
    assert_eq!(c.bind, "0.0.0.0:3000");
    assert_eq!(c.database_path, "./tuimessager.db");
    assert_eq!(c.data_dir, ".");
    assert!(c.allow_registration);
    let c = Config::from_env(&some("127.0.0.1:1"), &some("/var/tm/"), &None, &some("FALSE"));
    assert_eq!(c.bind, "127.0.0.1:1");
    assert_eq!(c.database_path, "/var/tm/tuimessager.db");
    assert!(!c.allow_registration);
    let c = Config::from_env(&None, &some("d"), &some("/x.db"), &some("0"));
    assert_eq!(c.database_path, "/x.db");
    assert_eq!(c.data_dir, "d");
    assert!(!c.allow_registration);
    assert!(allows_registration("no", "no"));
    assert!(!allows_registration("False", "false"));
}

#[test]
fn passwords_are_stored_as_hashes() {
    let mut app = Server::new();
    app.register("alice");
    let hash: String = app
        .conn
        .query_row("SELECT password_hash FROM users WHERE name='alice'", [], |r| r.get(0))
        .unwrap();
    assert!(hash.starts_with("$argon2id$"));
    let row = |hash: &str| {
        vec![
            Value::Text(Uuid(7).text()),
            Value::Text("alice".to_string()),
            Value::Null,
            Value::Int(0),
            Value::Text(Timestamp::now().text()),
            Value::Text(hash.to_string()),
        ]
    };
    let try_login = |hash: &str, password: &str| {
        let flow = Login::Finding { password: password.to_string() };
        match flow.next(Event::Rows(vec![row(hash)]), draw()) {
            Step::Ask(Stage::Login(Login::Opening { .. }), Action::Execute(_)) => true,
            Step::Done(f) => {
                assert_eq!((f.reply.status, text(&f)), (401, "invalid credentials".to_string()));
                false
            }
            other => panic!("{other:?}"),
        }
    };
    assert!(try_login(&hash, "correct-horse"));
    assert!(!try_login(&hash, "correct-horsf"));
    assert!(!try_login("correct-horse", "correct-horse"));
}

#[test]
fn what_follows_the_hashing_is_decided_by_it() {
    let req = || RegisterRequest {
        name: "bob".to_string(),
        display_name: None,
        password: "four".to_string(),
    };
    match accounts::check_name(req(), Ok("h".to_string())) {
        Step::Ask(Stage::Register(Register::Checking(r, hash)), Action::Query(s)) => {
            assert_eq!((r.name.as_str(), hash.as_str()), ("bob", "h"));
            assert_eq!(sql_values(&s.args), sql_values(&vec![Value::Text("bob".to_string())]));
        }
        other => panic!("{other:?}"),
    }
    match accounts::check_name(req(), Err("no salt".to_string())) {
        Step::Done(f) => assert_eq!((f.reply.status, text(&f)), (500, "no salt".to_string())),
        other => panic!("{other:?}"),
    }
    match UpdateMe::store_password(Uuid(3), "t".to_string(), Ok("h".to_string())) {
        Step::Ask(Stage::UpdateMe(UpdateMe::Storing { .. }), Action::Execute(s)) => {
            assert_eq!(s.sql, "UPDATE users SET password_hash=?1 WHERE id=?2");
            assert_eq!(
                sql_values(&s.args),
                sql_values(&vec![Value::Text("h".to_string()), Value::Text(Uuid(3).text())])
            );
        }
        other => panic!("{other:?}"),
    }
    match UpdateMe::store_password(Uuid(3), "t".to_string(), Err("no salt".to_string())) {
        Step::Done(f) => assert_eq!((f.reply.status, text(&f)), (500, "no salt".to_string())),
        other => panic!("{other:?}"),
    }
    match Login::open(some_user(Uuid(3)), true, draw()) {
        Step::Ask(Stage::Login(Login::Opening { user, token }), Action::Execute(s)) => {
            assert_eq!(user.id, Uuid(3));
            assert!(matches!(&s.args[0], Value::Text(t) if *t == token));
        }
        other => panic!("{other:?}"),
    }
    match Login::open(some_user(Uuid(3)), false, draw()) {
        Step::Done(f) => assert_eq!(f.reply.status, 401),
        other => panic!("{other:?}"),
    }
}

#[test]
fn a_key_names_one_message() {
    let mut app = Server::new();
    let alice = app.register("alice");
    app.register("bob");
    let channel = app.channel(&alice);
    let nonce = Some(Uuid::new_v4());
    let first = message(app.send(&alice, channel, "hello @bob", nonce));
    let stored = app.executed;
    let again = app.send(&alice, channel, "something else, @bob", nonce);
    assert_eq!(app.executed, stored);
    assert_eq!(again.reply.status, 200);
    assert!(again.event.is_none());
    let again = message(again);
    assert_eq!((again.id, again.content.as_str()), (first.id, "hello @bob"));
}

#[test]
fn two_toggles_change_nothing() {
    let mut app = Server::new();
    let alice = app.register("alice");
    let bob = app.register("bob");
    let channel = app.channel(&alice);
    let id = message(app.send(&alice, channel, "hi", None)).id;
    app.ask(Some(&bob), Request::React(id, "🔥".to_string()));
    app.ask(Some(&bob), Request::React(id, "👍".to_string()));
    let toggle = |app: &mut Server| {
        let finish = app.ask(Some(&alice), Request::React(id, "🔥".to_string()));
        let told: Vec<(String, u64, bool)> = match &finish.event {
            Some(WsEvent::ReactionUpdated { reactions, .. }) => {
                reactions.iter().map(|r| (r.emoji.clone(), r.count, r.me)).collect()
            }
            other => panic!("{other:?}"),
        };
        let m = message(finish);
        let mut seen: Vec<(String, u64, bool)> =
            m.reactions.iter().map(|r| (r.emoji.clone(), r.count, r.me)).collect();
        assert_eq!(seen, told);
        assert_eq!((m.content.as_str(), m.edited_at), ("hi", None));
        seen.sort();
        seen
    };
    let entry = |emoji: &str, count: u64, me: bool| (emoji.to_string(), count, me);
    assert_eq!(toggle(&mut app), vec![entry("👍", 1, false), entry("🔥", 2, true)]);
    assert_eq!(toggle(&mut app), vec![entry("👍", 1, false), entry("🔥", 1, false)]);
}

#[test]
fn hashes_with_too_many_lanes_open_to_nothing() {
    let hash = |p: &str| {
        format!("$argon2id$v=19$m=19456,t=2,p={p}$c29tZXNhbHRzb21lc2FsdA$aGFzaGhhc2hoYXNoaGFzaA")
    };
    for p in ["1", "16777215", "99999999", "536870912", "4294967295", "99999999999", "000000001"] {
        assert!(!check_password(&hash(p), "four"));
    }
    assert!(!check_password("", ""));
    assert!(!check_password("p=", "p="));
}

#[test]
fn an_older_users_table_gets_its_column() {
    let conn = rusqlite::Connection::open_in_memory().unwrap();
    conn.execute_batch("CREATE TABLE users (id TEXT PRIMARY KEY, name TEXT NOT NULL UNIQUE, display_name TEXT, password_hash TEXT NOT NULL, bot INTEGER NOT NULL DEFAULT 0, created_at TEXT NOT NULL); INSERT INTO users (id, name, password_hash, created_at) VALUES ('u', 'old', 'h', 't');").unwrap();
    conn.execute_batch(db::SCHEMA).unwrap();
    let count = || -> i64 { conn.query_row(db::COUNT_AVATAR_COLUMNS, [], |r| r.get(0)).unwrap() };
    assert_eq!(count(), 0);
    let added = db::add_avatar_column(count());
    assert_eq!(added.len(), 1);
    execute(&conn, &added[0]).unwrap();
    assert_eq!(count(), 1);
    assert_eq!(db::add_avatar_column(count()).len(), 0);
    let rows = query(&conn, &db::user_by_id("u")).unwrap();
    assert!(matches!(&rows[0][5], Value::Int(0)));
}

use tuimessager::app::{rank_items, Answer, App, Focus, Popup, Work};
use tuimessager::client::{Client, Method, Payload};
use tuimessager::config::{AppOptions, Theme};
use tuimessager::id::Uuid;
use tuimessager::keys::{
    emoji, leader_key, open_url_in_message, parse_leader, Key, Modifiers,
};
use tuimessager::login::{
    arrange_form, login_flow, Field, FormAction, LoginAction, LoginApp, LoginEvent,
};
use tuimessager::protocol::{
    Attachment, AuthResponse, Channel, ChannelKind, Member, Message, MessagesPage, Notification,
    NotificationKind, Presence, ReactionCount, Server, User, WsEvent,
};
use tuimessager::style::{Color, Line, Style};
use tuimessager::time::Timestamp;
use tuimessager::ui::{
    arrange, composer_height, draw, draw_composer, draw_header, draw_in, draw_members,
    draw_messages, draw_popup, draw_servers, draw_status, help_lines, middle_constraints,
    pane_constraints, styled_modifier, Placed, Rect, Share, Widget,
};
use tuimessager::{login, ui};

const PLAIN: Modifiers = Modifiers { shift: false, control: false, other: false };
const SHIFT: Modifiers = Modifiers { shift: true, control: false, other: false };
const CONTROL: Modifiers = Modifiers { shift: false, control: true, other: false };
const SPACE: Key = Key::Char(' ');

fn at() -> Timestamp {
    Timestamp::new(1_700_000_000, 0).unwrap()
}

fn user(id: u128, name: &str) -> User {
    User {
        id: Uuid(id),
        name: name.to_string(),
        display_name: None,
        avatar_url: None,
        bot: false,
        created_at: at(),
    }
}

fn server(id: u128, name: &str) -> Server {
    Server {
        id: Uuid(id),
        name: name.to_string(),
        description: None,
        created_at: at(),
        unread: false,
        mentioned: false,
    }
}

fn channel(id: u128, name: &str) -> Channel {
    Channel {
        id: Uuid(id),
        server_id: Some(Uuid(1)),
        parent_id: None,
        name: name.to_string(),
        topic: None,
        kind: ChannelKind::Text,
        position: 0,
        unread_count: 0,
        mentioned: false,
        muted: false,
    }
}

fn message(id: u128, author: u128, content: &str) -> Message {
    Message {
        id: Uuid(id),
        channel_id: Uuid(11),
        author: user(author, "someone"),
        content: content.to_string(),
        created_at: at(),
        edited_at: None,
        reply_to: None,
        pinned: false,
        reactions: vec![],
        attachments: vec![],
        embeds: vec![],
    }
}

fn member(id: u128, presence: Presence) -> Member {
    Member { user: user(id, "m"), presence, roles: vec![] }
}

fn notification(id: u128, read: bool, content: &str) -> Notification {
    Notification {
        id: Uuid(id),
        channel_id: Uuid(11),
        message: message(id, 2, content),
        kind: NotificationKind::Mention,
        created_at: at(),
        read,
    }
}

fn page(items: Vec<Message>) -> Answer {
    Answer::Page(MessagesPage { items, has_more: true })
}

/// Three servers, three channels, three messages of which the last is the user's own.
fn app() -> App {
    let client = Client::new("http://h", "tok".to_string());
    let mut app = App::new(AppOptions::default(), client, user(1, "alice"), Theme::default());
    app.take(
        &Work::FetchServers,
        Answer::Servers(vec![server(1, "one"), server(2, "two"), server(3, "three")]),
    );
    let work = app.take(
        &Work::FetchChannels(Uuid(1)),
        Answer::Channels(vec![channel(11, "general"), channel(12, "random"), channel(13, "gym")]),
    );
    assert!(matches!(work[0], Work::FetchMembers(Uuid(1))));
    assert!(matches!(work[1], Work::FetchHistory { channel: Uuid(11), before: None }));
    assert_eq!(work.len(), 2);
    app.take(&work[0], Answer::Members(vec![member(1, Presence::Online), member(2, Presence::Idle)]));
    app.take(
        &work[1],
        page(vec![message(21, 2, "a"), message(22, 2, "see https://x.y now"), message(23, 1, "mine")]),
    );
    app
}

fn press(app: &mut App, key: Key) -> Vec<Work> {
    let mut pending = false;
    app.handle_key(key, PLAIN, &mut pending, SPACE)
}

fn type_char(app: &mut App, c: char) -> Vec<Work> {
    press(app, Key::Char(c))
}

fn after_leader(app: &mut App, c: char) -> Vec<Work> {
    let mut pending = false;
    assert!(app.handle_key(SPACE, PLAIN, &mut pending, SPACE).is_empty());
    assert!(pending);
    let work = app.handle_key(Key::Char(c), PLAIN, &mut pending, SPACE);
    assert!(!pending);
    work
}

fn texts(lines: &[Line]) -> Vec<String> {
    lines.iter().map(|l| l.spans.iter().map(|s| s.content.as_str()).collect()).collect()
}

fn lines_of(w: &Widget) -> Vec<String> {
    match w {
        Widget::Paragraph { lines, .. } => texts(lines),
        Widget::List { items, .. } => texts(items),
        other => panic!("{other:?}"),
    }
}

fn title_of(w: &Widget) -> &str {
    match w {
        Widget::Paragraph { block: Some(b), .. } => &b.title,
        Widget::List { block, .. } => &block.title,
        Widget::Border(b) => &b.title,
        other => panic!("{other:?}"),
    }
}

#[test]
fn loading_selects_what_is_there() {
    let mut a = app();
    assert_eq!((a.server_idx, a.channel_idx, a.msg_idx), (0, 0, 2));
    assert!(a.has_more);
    assert_eq!(a.status, "");
    a.server_idx = 2;
    a.take(&Work::FetchServers, Answer::Servers(vec![server(1, "one")]));
    assert_eq!(a.server_idx, 0);
    a.take(&Work::FetchServers, Answer::Failed("down".to_string()));
    assert_eq!(a.status, "servers: down");
    a.take(&Work::FetchChannels(Uuid(1)), Answer::Failed("x".to_string()));
    assert_eq!(a.status, "channels: x");
    let history = Work::FetchHistory { channel: Uuid(11), before: None };
    a.take(&history, Answer::Failed("y".to_string()));
    assert_eq!(a.status, "history: y");
    // Older messages come before those that are there.
    let older = Work::FetchHistory { channel: Uuid(11), before: Some(Uuid(21)) };
    a.take(&older, page(vec![message(20, 2, "older")]));
    assert_eq!(a.messages.len(), 4);
    assert_eq!(a.messages[0].id, Uuid(20));
    assert_eq!(a.msg_idx, 2);
    a.take(&history, page(vec![]));
    assert_eq!((a.messages.len(), a.msg_idx), (0, 0));
    assert!(a.selected_message().is_none());
}

#[test]
fn unread_notifications_are_shown_on_the_desktop() {
    let mut a = app();
    let list = || vec![notification(31, true, "old"), notification(32, false, &"x".repeat(300))];
    let work = a.take(&Work::FetchNotifications, Answer::Notifications(list()));
    match &work[0] {
        Work::Toast { summary, body } => {
            assert_eq!(summary, "tuimessager: someone");
            assert_eq!(body.len(), 200);
        }
        other => panic!("{other:?}"),
    }
    assert_eq!(a.notifications.len(), 2);
    a.options.notifications.desktop_notifications = false;
    assert!(a.take(&Work::FetchNotifications, Answer::Notifications(list())).is_empty());
}

#[test]
fn messages_are_sent_and_edited() {
    let mut a = app();
    type_char(&mut a, 'i');
    assert!(a.composer_open);
    for c in " hi é".chars() {
        assert!(type_char(&mut a, c).is_empty());
    }
    assert_eq!(a.composer_cursor, 6);
    press(&mut a, Key::Backspace);
    assert_eq!((a.composer.as_str(), a.composer_cursor), (" hi ", 4));
    let mut pending = false;
    assert!(a.handle_key(Key::Enter, SHIFT, &mut pending, SPACE).is_empty());
    a.reply_to = Some(Uuid(21));
    let work = press(&mut a, Key::Enter);
    match &work[0] {
        Work::Send { channel, content, reply_to } => {
            assert_eq!((*channel, content.as_str(), *reply_to), (Uuid(11), "hi", Some(Uuid(21))));
        }
        other => panic!("{other:?}"),
    }
    assert!(!a.composer_open && a.composer.is_empty() && a.reply_to.is_none());
    a.take(&work[0], Answer::Message(message(24, 1, "hi")));
    assert_eq!((a.messages.len(), a.msg_idx), (4, 3));
    a.take(&work[0], Answer::Failed("late".to_string()));
    assert_eq!(a.status, "send: late");

    // Only one's own messages can be edited.
    type_char(&mut a, 'e');
    assert_eq!((a.editing, a.composer.as_str()), (Some(Uuid(24)), "hi"));
    type_char(&mut a, '!');
    let work = press(&mut a, Key::Enter);
    assert!(matches!(&work[0], Work::Edit { id: Uuid(24), content } if content == "hi!"));
    assert_eq!(a.editing, None);
    a.take(&work[0], Answer::Message(message(24, 1, "hi!")));
    assert_eq!(a.messages[3].content, "hi!");
    a.take(&work[0], Answer::Failed("no".to_string()));
    assert_eq!(a.status, "edit: no");
    a.msg_idx = 0;
    type_char(&mut a, 'e');
    assert_eq!(a.status, "only your own messages can be edited");
    assert!(!a.composer_open);

    // A blank text closes the composer, and Esc forgets what it was for.
    type_char(&mut a, 'i');
    assert!(press(&mut a, Key::Enter).is_empty());
    assert!(!a.composer_open);
    type_char(&mut a, 'R');
    assert_eq!(a.reply_to, Some(Uuid(21)));
    type_char(&mut a, '@');
    assert_eq!(a.status, "mention: type a name, Tab completion roadmap");
    press(&mut a, Key::Esc);
    assert!(!a.composer_open && a.reply_to.is_none());
    assert_eq!(a.composer, "@");
    a.composer_open = true;
    a.handle_key(Key::Char('u'), CONTROL, &mut pending, SPACE);
    assert_eq!(a.composer, "");
}

#[test]
fn deleting_asks_first() {
    let mut a = app();
    type_char(&mut a, 'd');
    assert_eq!(a.popup, Popup::ConfirmDelete);
    assert!(type_char(&mut a, 'n').is_empty());
    assert_eq!(a.popup, Popup::Closed);
    type_char(&mut a, 'd');
    let work = type_char(&mut a, 'y');
    assert!(matches!(work[0], Work::Delete(Uuid(23))));
    a.take(&work[0], Answer::Done);
    assert_eq!((a.messages.len(), a.msg_idx), (2, 1));
    a.take(&work[0], Answer::Failed("z".to_string()));
    assert_eq!(a.status, "delete: z");
    // Someone else's message is not deleted.
    type_char(&mut a, 'd');
    assert!(press(&mut a, Key::Enter).is_empty());
    assert_eq!(a.status, "only your own messages can be deleted");
}

#[test]
fn logging_out_ends_the_program() {
    let mut a = app();
    after_leader(&mut a, 'l');
    assert_eq!(a.popup, Popup::ConfirmLogout);
    let work = type_char(&mut a, 'Y');
    assert!(matches!(work[0], Work::Logout));
    let more = a.take(&work[0], Answer::Failed("gone".to_string()));
    assert_eq!(a.status, "logout: gone (clearing local token anyway)");
    assert_eq!(a.exit_message, Some("Logged out of tuimessager.".to_string()));
    assert!(matches!((&more[0], &more[1]), (Work::ClearToken, Work::Quit)));
}

#[test]
fn keys_move_in_the_panes() {
    let mut a = app();
    let work = type_char(&mut a, 'j');
    assert_eq!(a.server_idx, 1);
    assert!(matches!(work[0], Work::FetchChannels(Uuid(2))));
    let work = press(&mut a, Key::Up);
    assert_eq!(a.server_idx, 0);
    assert!(matches!(work[0], Work::FetchChannels(Uuid(1))));
    type_char(&mut a, 'G');
    assert_eq!(a.server_idx, 2);
    assert!(type_char(&mut a, 'j').is_empty());
    type_char(&mut a, 'g');
    assert_eq!(a.server_idx, 0);
    press(&mut a, Key::Tab);
    assert_eq!(a.focus, Focus::Channels);
    let work = press(&mut a, Key::Down);
    assert!(matches!(work[0], Work::FetchHistory { channel: Uuid(12), before: None }));
    let work = press(&mut a, Key::Enter);
    assert!(matches!(work[0], Work::FetchHistory { channel: Uuid(12), .. }));
    press(&mut a, Key::BackTab);
    assert_eq!(a.focus, Focus::Servers);
    press(&mut a, Key::BackTab);
    assert_eq!(a.focus, Focus::Members);
    type_char(&mut a, 'j');
    type_char(&mut a, 'j');
    assert_eq!(a.member_idx, 1);
    type_char(&mut a, '3');
    assert_eq!(a.focus, Focus::Messages);
    // Half a page is ten steps.
    let mut pending = false;
    let work = a.handle_key(Key::Char('u'), CONTROL, &mut pending, SPACE);
    assert_eq!(work.len(), 10);
    for w in &work {
        a.perform(w);
    }
    assert_eq!(a.msg_idx, 0);
    let work = a.handle_key(Key::Char('d'), CONTROL, &mut pending, SPACE);
    for w in &work {
        a.perform(w);
    }
    assert_eq!(a.msg_idx, 2);
    for focus in [Focus::Servers, Focus::Channels, Focus::Messages, Focus::Members] {
        assert_eq!(focus.next().prev(), focus);
        assert_eq!(focus.next().next().next().next(), focus);
    }
}

#[test]
fn keys_act_on_the_selected_message() {
    let mut a = app();
    a.msg_idx = 1;
    let work = type_char(&mut a, 'o');
    assert!(matches!(&work[0], Work::OpenUrl(u) if u == "https://x.y"));
    let work = type_char(&mut a, 'y');
    assert_eq!(work.len(), 1);
    assert!(matches!(&work[0], Work::Copy(t) if *t == a.messages[1].content));
    assert_eq!(a.status, "copied 19 chars");
    type_char(&mut a, 'r');
    assert_eq!(a.popup, Popup::Emoji);
    press(&mut a, Key::Down);
    let work = press(&mut a, Key::Enter);
    assert!(matches!(&work[0], Work::React { id: Uuid(22), emoji } if emoji == "👍"));
    assert_eq!((a.popup, a.popup_idx), (Popup::Closed, 0));
    a.take(&work[0], Answer::Message(message(22, 2, "reacted")));
    assert_eq!(a.messages[1].content, "reacted");
    a.take(&work[0], Answer::Failed("q".to_string()));
    assert_eq!(a.status, "react: q");
    // `q` gives up a reply first, then ends the program.
    a.focus = Focus::Messages;
    a.reply_to = Some(Uuid(1));
    assert!(type_char(&mut a, 'q').is_empty());
    assert_eq!(a.reply_to, None);
    assert!(matches!(type_char(&mut a, 'q')[0], Work::Quit));
    assert_eq!(open_url_in_message("no ftp://x"), None);
    assert_eq!(open_url_in_message(" x\thttp://a"), Some("http://a".to_string()));
    assert_eq!(emoji(2), Some("❤️"));
    assert_eq!(emoji(10), None);
}

#[test]
fn popups_take_input() {
    let mut a = app();
    type_char(&mut a, '/');
    assert_eq!(a.popup, Popup::Search);
    for c in "qa".chars() {
        type_char(&mut a, c);
    }
    // An empty input closes a popup on `q`, one that holds something takes it.
    assert_eq!(a.popup, Popup::Closed);
    type_char(&mut a, '/');
    for c in "aq ".chars() {
        type_char(&mut a, c);
    }
    assert_eq!(a.popup_input, "aq ");
    press(&mut a, Key::Backspace);
    let work = press(&mut a, Key::Enter);
    match &work[0] {
        Work::Search { query, channel } => {
            assert_eq!((query.as_str(), *channel), ("aq", Some(Uuid(11))));
        }
        other => panic!("{other:?}"),
    }
    a.take(&work[0], Answer::Messages(vec![message(40, 2, "hit")]));
    assert_eq!((a.status.as_str(), a.msg_idx, a.focus), ("search: 1 hits", 0, Focus::Messages));
    a.take(&work[0], Answer::Failed("w".to_string()));
    assert_eq!(a.status, "search: w");
    type_char(&mut a, '/');
    type_char(&mut a, 'x');
    press(&mut a, Key::Esc);
    assert_eq!((a.popup, a.popup_input.as_str()), (Popup::Search, ""));
    press(&mut a, Key::Esc);
    assert_eq!(a.popup, Popup::Closed);
    assert!(matches!(after_leader(&mut a, 'n')[0], Work::FetchNotifications));
    assert_eq!(a.popup, Popup::Inbox);
    press(&mut a, Key::Down);
    press(&mut a, Key::Up);
    press(&mut a, Key::Up);
    assert_eq!(a.popup_idx, 0);
    press(&mut a, Key::Enter);
    assert_eq!(a.popup, Popup::Closed);
}

#[test]
fn the_leader_key_opens_and_toggles() {
    let mut a = app();
    after_leader(&mut a, '1');
    after_leader(&mut a, '2');
    after_leader(&mut a, '4');
    assert!(!a.show_servers && !a.show_channels && !a.show_members);
    after_leader(&mut a, 'p');
    assert_eq!(a.status, "alice (alice)");
    after_leader(&mut a, 'v');
    assert_eq!(a.status, "voice is a UI placeholder in v1 (self-hosted audio roadmap)");
    after_leader(&mut a, 'o');
    assert_eq!(a.popup, Popup::Help);
    press(&mut a, Key::Esc);
    after_leader(&mut a, 'a');
    assert_eq!(a.popup, Popup::MessageActions);
    assert_eq!(parse_leader(" Space "), SPACE);
    assert_eq!(parse_leader("TAB"), Key::Tab);
    assert_eq!(parse_leader("enter"), Key::Enter);
    assert_eq!(parse_leader("X"), Key::Char('x'));
    assert_eq!(parse_leader(""), SPACE);
    assert_eq!(parse_leader("hyper"), SPACE);
    assert_eq!(leader_key(","), Key::Char(','));
}

#[test]
fn the_switcher_ranks() {
    let mut a = app();
    after_leader(&mut a, ' ');
    assert_eq!(a.popup, Popup::ChannelSwitcher);
    assert_eq!(a.switcher_items().iter().map(|x| x.1).collect::<Vec<_>>(), vec![0, 1, 2]);
    for c in "gm".chars() {
        type_char(&mut a, c);
    }
    assert_eq!(a.switcher_items(), vec![(20 - 4, 2)]);
    a.popup_input = "*one r".to_string();
    assert_eq!(a.switcher_items().len(), 2);
    a.popup_input = "#random".to_string();
    let work = press(&mut a, Key::Enter);
    assert_eq!((a.channel_idx, a.focus), (1, Focus::Messages));
    assert!(matches!(work[0], Work::FetchHistory { channel: Uuid(12), before: None }));
    let many: Vec<(i64, usize)> = (0..30).map(|i| ((i % 3) as i64, i as usize)).collect();
    let best = rank_items(&many);
    assert_eq!(best.len(), 20);
    assert_eq!(best[0], (2, 2));
    assert_eq!(best[9], (2, 29));
    assert_eq!(best[10], (1, 1));
}

#[test]
fn live_events_change_the_messages() {
    let mut a = app();
    a.apply_event(WsEvent::MessageCreated { message: message(50, 2, "new") });
    assert_eq!((a.messages.len(), a.msg_idx), (4, 2));
    a.focus = Focus::Messages;
    a.apply_event(WsEvent::MessageCreated { message: message(51, 2, "new") });
    assert_eq!(a.msg_idx, 4);
    let mut other = message(52, 2, "elsewhere");
    other.channel_id = Uuid(99);
    a.apply_event(WsEvent::MessageCreated { message: other });
    assert_eq!(a.messages.len(), 5);
    assert_eq!(a.status, format!("new message in {}", Uuid(99).text()));
    a.apply_event(WsEvent::MessageEdited { message: message(21, 2, "edited") });
    assert_eq!(a.messages[0].content, "edited");
    let reactions = vec![ReactionCount { emoji: "🔥".to_string(), count: 2, me: true }];
    a.apply_event(WsEvent::ReactionUpdated {
        channel_id: Uuid(11),
        message_id: Uuid(22),
        reactions,
    });
    assert_eq!(a.messages[1].reactions[0].count, 2);
    for _ in 0..2 {
        a.apply_event(WsEvent::MessageDeleted { channel_id: Uuid(11), id: Uuid(51) });
        assert_eq!((a.messages.len(), a.msg_idx), (4, 3));
    }
    a.apply_event(WsEvent::ChannelCreated { channel: channel(14, "new") });
    assert_eq!(a.status, "new channel: #new");
    a.apply_event(WsEvent::NotificationCreated { notification: notification(60, false, "n") });
    a.apply_event(WsEvent::NotificationCreated { notification: notification(61, false, "n") });
    assert_eq!(a.notifications[0].id, Uuid(61));
    a.apply_event(WsEvent::Error { message: "e".to_string() });
    assert_eq!(a.messages.len(), 4);
}

#[test]
fn work_becomes_requests() {
    let a = app();
    let r = a.request(&Work::FetchHistory { channel: Uuid(11), before: None }).unwrap();
    assert!(r.url.ends_with("/messages?limit=50"));
    assert_eq!(r.token, Some("tok".to_string()));
    let r = a.request(&Work::Delete(Uuid(1))).unwrap();
    assert_eq!(r.method, Method::Delete);
    let w = Work::Send { channel: Uuid(11), content: "x".to_string(), reply_to: None };
    assert!(matches!(a.request(&w).unwrap().payload, Payload::Send(s) if s.content == "x"));
    assert!(a.request(&Work::Quit).is_none());
    assert!(a.request(&Work::MoveDown).is_none());
    assert_eq!(a.refresh_servers().len(), 1);
    assert_eq!(a.refresh_notifications().len(), 1);
    assert_eq!(a.format_time(&at()).len(), 5);
}

#[test]
fn the_panes_are_drawn() {
    let mut a = app();
    a.servers[1].mentioned = true;
    a.servers[2].unread = true;
    let w = draw_servers(&a);
    assert_eq!(title_of(&w), " Servers ");
    assert_eq!(lines_of(&w), vec!["▸ one", "  two [@]", "  three •"]);
    match &w {
        Widget::List { items, block } => {
            assert_eq!(items[0].style, Style::new().bg(Color::DarkGray));
            assert_eq!(items[1].style, Style::new());
            assert_eq!(block.border_style, Style::new().fg(Color::Cyan).bold());
        }
        other => panic!("{other:?}"),
    }
    a.channels[1].unread_count = 12;
    a.channels[2].kind = ChannelKind::Thread;
    assert_eq!(
        lines_of(&ui::draw_channels(&a)),
        vec!["▸ # general", "  # random (12)", "  🧵 gym"]
    );
    assert_eq!(lines_of(&draw_members(&a)), vec!["▸ ● m", "  ● m"]);
    a.channels[0].topic = Some("talk".to_string());
    assert_eq!(lines_of(&draw_header(&a)), vec![" tuimessager · one · #general  talk"]);
    assert_eq!(
        lines_of(&draw_status(&a)),
        vec![" 1-4 focus · Tab cycle · / search · Space shortcuts · i compose · q quit"]
    );
    a.notifications = vec![notification(1, false, "x"), notification(2, true, "y")];
    assert!(lines_of(&draw_status(&a))[0].ends_with(" · inbox(1)"));
    a.status = "hi".to_string();
    assert_eq!(lines_of(&draw_status(&a)), vec![" hi"]);
    assert_eq!(styled_modifier(), Style::new().bold());
}

#[test]
fn messages_are_drawn() {
    let mut a = app();
    a.focus = Focus::Messages;
    let mut m = message(70, 2, "**b**\nc");
    m.edited_at = Some(at());
    m.pinned = true;
    m.reply_to = Some(Uuid(1));
    m.reactions = vec![ReactionCount { emoji: "🔥".to_string(), count: 3, me: true }];
    m.attachments = vec![Attachment {
        id: Uuid(1),
        filename: "f.png".to_string(),
        url: "u".to_string(),
        mime: None,
        size: 1,
        width: None,
        height: None,
    }];
    a.messages = vec![m];
    a.msg_idx = 0;
    let times = vec!["10:11".to_string()];
    let w = draw_messages(&a, &times);
    assert_eq!(
        lines_of(&w),
        vec![
            "▸ someone 10:11 (edited) 📌 ↩",
            "    b",
            "    c",
            "     🔥 3 ",
            "    🖼 f.png (u)",
            "",
        ]
    );
    a.options.display.show_images = false;
    assert_eq!(lines_of(&draw_messages(&a, &times)).len(), 5);
    a.messages = vec![];
    assert_eq!(
        lines_of(&draw_messages(&a, &vec![])),
        vec!["  No messages yet. Press i to compose."]
    );
}

#[test]
fn the_composer_grows() {
    let mut a = app();
    assert_eq!(composer_height(&a), 3);
    assert_eq!(title_of(&draw_composer(&a)), " Composer (i to write) ");
    assert_eq!(lines_of(&draw_composer(&a)), vec![""]);
    a.composer_open = true;
    assert_eq!(composer_height(&a), 5);
    a.composer = "x".to_string();
    assert_eq!(composer_height(&a), 6);
    assert_eq!(lines_of(&draw_composer(&a)), vec!["x▊"]);
    a.composer = "x\ny\nz".to_string();
    assert_eq!(composer_height(&a), 7);
    a.reply_to = Some(Uuid(1));
    assert_eq!(title_of(&draw_composer(&a)), " Reply (Enter send, Esc cancel) ");
    a.editing = Some(Uuid(1));
    assert_eq!(title_of(&draw_composer(&a)), " Edit (Enter save, Esc cancel) ");
}

#[test]
fn popups_are_drawn() {
    let mut a = app();
    a.popup = Popup::Emoji;
    let rows = lines_of(&draw_popup(&a));
    assert_eq!((rows.len(), rows[0].as_str(), rows[1].as_str()), (11, "Filter: ", "▸ 🔥"));
    a.popup_input = "👍".to_string();
    assert_eq!(lines_of(&draw_popup(&a)), vec!["Filter: 👍", "▸ 👍"]);
    a.popup = Popup::Search;
    assert_eq!(lines_of(&draw_popup(&a)), vec!["Filter: 👍", "Query: 👍"]);
    a.popup_input = String::new();
    a.popup = Popup::ChannelSwitcher;
    assert_eq!(
        lines_of(&draw_popup(&a)),
        vec!["Filter: ", "▸ #general  ", "  #random  ", "  #gym  "]
    );
    a.popup = Popup::Inbox;
    a.notifications = (0..25).map(|i| notification(i, false, &"y".repeat(90))).collect();
    let rows = lines_of(&draw_popup(&a));
    assert_eq!(rows.len(), 21);
    assert_eq!(rows[1], format!("▸ someone: {}", "y".repeat(80)));
    a.popup = Popup::Help;
    assert_eq!(lines_of(&draw_popup(&a)).len(), 1 + help_lines().len());
    a.popup = Popup::ConfirmLogout;
    let w = ui::draw_confirm(&a);
    assert_eq!(title_of(&w), " Log out ");
    assert_eq!(lines_of(&w)[0], "Logged in as alice (alice)");
    a.popup = Popup::ConfirmDelete;
    let w = ui::draw_confirm(&a);
    assert_eq!(lines_of(&w), vec!["Delete this message?", "mine", "y confirm · Esc cancel"]);
}

#[test]
fn everything_has_its_place() {
    let mut a = app();
    let screen = Rect { x: 0, y: 0, width: 120, height: 40 };
    let p = arrange(&a, screen);
    assert_eq!(p.header, Rect { x: 0, y: 0, width: 120, height: 1 });
    assert_eq!(p.status, Rect { x: 0, y: 39, width: 120, height: 1 });
    assert_eq!(p.panes.len(), 4);
    assert_eq!(p.panes[0], Rect { x: 0, y: 1, width: 20, height: 38 });
    assert_eq!(p.panes[3], Rect { x: 98, y: 1, width: 22, height: 38 });
    assert_eq!(p.composer, Rect { x: 44, y: 36, width: 54, height: 3 });
    let drawn: Vec<Placed> = draw(&a, screen);
    assert_eq!(drawn.len(), 7);
    assert_eq!(title_of(&drawn[1].widget), " Servers ");
    assert_eq!(title_of(&drawn[5].widget), " Members ");
    a.show_servers = false;
    a.show_members = false;
    a.popup = Popup::Help;
    let p = arrange(&a, screen);
    assert_eq!(p.panes.len(), 2);
    let times = ui::message_times(&a);
    let drawn = draw_in(&a, &p, &times);
    assert_eq!(drawn.len(), 7);
    assert!(matches!(drawn[5].widget, Widget::Clear));
    assert_eq!(drawn[6].area, p.popup);
    assert_eq!(
        pane_constraints(&a),
        vec![Share::Length(24), Share::Min(20)]
    );
    assert_eq!(
        middle_constraints(70),
        vec![Share::Percentage(15), Share::Percentage(70), Share::Percentage(15)]
    );
}

#[test]
fn the_first_launch_registers() {
    let auth = || AuthResponse { token: "new".to_string(), user: user(1, "alice") };
    let (flow, action) = login_flow("http://h/".to_string(), Some("old".to_string()));
    assert!(matches!(&action, LoginAction::Request { request, .. } if request.url == "http://h/api/v1/me"));
    let (flow, action) = flow.next(LoginEvent::Failed("401".to_string()));
    match action {
        LoginAction::Ask { notice } => {
            assert_eq!(notice, Some("saved token invalid, please log in again".to_string()));
        }
        other => panic!("{other:?}"),
    }
    let entered = LoginEvent::Entered { name: "a".to_string(), password: "pass".to_string() };
    let (flow, action) = flow.next(entered);
    assert!(matches!(&action, LoginAction::Request { request, .. } if request.url == "http://h/api/v1/login"));
    let (flow, action) = flow.next(LoginEvent::Failed("401".to_string()));
    match action {
        LoginAction::Request { notice, request } => {
            assert_eq!(notice, Some("login failed, trying register…".to_string()));
            assert_eq!(request.url, "http://h/api/v1/register");
        }
        other => panic!("{other:?}"),
    }
    let (_, action) = flow.next(LoginEvent::Session(auth()));
    match action {
        LoginAction::Open { client, user, store } => {
            assert_eq!((client.base.as_str(), client.token.as_str()), ("http://h", "new"));
            assert_eq!(user.name, "alice");
            assert!(store);
        }
        other => panic!("{other:?}"),
    }
    // A token that still holds needs no asking, and is not stored again.
    let (flow, _) = login_flow("http://h".to_string(), Some("old".to_string()));
    let (_, action) = flow.next(LoginEvent::Me(user(1, "alice")));
    assert!(matches!(action, LoginAction::Open { store: false, .. }));
    let (flow, action) = login_flow("http://h".to_string(), None);
    assert!(matches!(action, LoginAction::Ask { notice: None }));
    let (_, action) = flow.next(LoginEvent::Failed("eof".to_string()));
    assert!(matches!(action, LoginAction::Fail(e) if e == "eof"));
    let (flow, _) = login_flow("http://h".to_string(), None);
    let (_, action) = flow.next(LoginEvent::Session(auth()));
    assert!(matches!(action, LoginAction::Fail(e) if e == "unexpected event"));
}

#[test]
fn the_form_takes_keys() {
    let mut f = LoginApp::new(None, "http://h/");
    assert_eq!(f.focus, Field::Username);
    for c in " al ".chars() {
        f.run_login(Key::Char(c), PLAIN);
    }
    f.run_login(Key::Enter, PLAIN);
    assert_eq!(f.error, "server, username and password are all required");
    f.run_login(Key::Tab, PLAIN);
    assert_eq!(f.focus, Field::Password);
    for c in "pwx".chars() {
        f.run_login(Key::Char(c), PLAIN);
    }
    assert_eq!(f.error, "");
    f.run_login(Key::Backspace, PLAIN);
    assert_eq!(f.password, "pw");
    match f.run_login(Key::Enter, PLAIN) {
        FormAction::Request(r) => {
            assert_eq!(r.url, "http://h/api/v1/login");
            assert!(matches!(r.payload, Payload::Login(q) if q.name == "al" && q.password == "pw"));
        }
        other => panic!("{other:?}"),
    }
    assert!(f.busy);
    assert!(f.take(Err("e".repeat(100))).is_none());
    assert_eq!((f.busy, f.error.len(), f.password.len()), (false, 90, 0));
    f.run_login(Key::F(2), PLAIN);
    assert!(f.register_mode && f.error.is_empty());
    f.run_login(Key::Char('p'), PLAIN);
    match f.run_login(Key::Enter, PLAIN) {
        FormAction::Request(r) => assert_eq!(r.url, "http://h/api/v1/register"),
        other => panic!("{other:?}"),
    }
    let auth = AuthResponse { token: "t".to_string(), user: user(1, "al") };
    let (client, me) = f.take(Ok(auth)).unwrap();
    assert_eq!((client.base.as_str(), client.token.as_str(), me.name.as_str()), ("http://h", "t", "al"));
    f.store_failed();
    assert_eq!(f.error, "logged in, but could not save the token file");
    assert!(matches!(f.run_login(Key::Esc, PLAIN), FormAction::Cancel));
    f.run_login(Key::Tab, SHIFT);
    assert_eq!(f.focus, Field::Username);
    for field in [Field::Server, Field::Username, Field::Password] {
        assert_eq!(field.next().prev(), field);
    }
    assert_eq!(LoginApp::new(Some("https://x".to_string()), "y").server, "https://x");
}

#[test]
fn the_form_hides_the_password() {
    let mut f = LoginApp::new(None, "s");
    f.password = "abé".to_string();
    f.focus = Field::Password;
    let p = arrange_form(Rect { x: 0, y: 0, width: 100, height: 40 });
    assert_eq!(p.rows.len(), 7);
    let drawn = f.draw_login(&p);
    assert_eq!(title_of(&drawn[1].widget), " Log in ");
    assert_eq!(lines_of(&drawn[2].widget), vec!["tuimessager — self-hosted server (no Discord)"]);
    assert_eq!(lines_of(&drawn[5].widget), vec!["•••▊"]);
    assert_eq!(title_of(&drawn[5].widget), " Password ");
    assert_eq!(lines_of(&drawn[6].widget), vec!["Mode: [Log in]  (F2 to switch)"]);
    assert_eq!(
        lines_of(&drawn[7].widget),
        vec!["Tab move · Enter submit · F2 login/register · Esc quit"]
    );
    f.busy = true;
    f.register_mode = true;
    let drawn = f.draw_login(&p);
    assert_eq!(lines_of(&drawn[7].widget), vec!["working…"]);
    assert_eq!(lines_of(&drawn[6].widget), vec!["Mode: [Register]  (F2 to switch)"]);
    assert_eq!(lines_of(&login::field("L", "v", false, false)), vec!["v"]);
}

#[test]
fn the_screen_is_filled() {
    let mut a = app();
    for bits in 0..8u16 {
        a.show_servers = bits & 1 != 0;
        a.show_channels = bits & 2 != 0;
        a.show_members = bits & 4 != 0;
        let others = [(a.show_servers, 20), (a.show_channels, 24), (a.show_members, 22)];
        let taken: u16 = others.iter().map(|(shown, n)| if *shown { *n } else { 0 }).sum();
        for (x, y, more, height) in
            [(0, 0, 0, 10), (3, 2, 1, 11), (0, 0, 37, 25), (7, 1, 200, 61), (1000, 900, 33, 47)]
        {
            let screen = Rect { x, y, width: taken + 20 + more, height };
            let p = arrange(&a, screen);
            assert_eq!(p.header, Rect { height: 1, ..screen });
            assert_eq!(p.status, Rect { y: y + height - 1, height: 1, ..screen });
            let mut edge = x;
            for pane in &p.panes {
                assert_eq!((pane.x, pane.y, pane.height), (edge, y + 1, height - 2));
                edge += pane.width;
            }
            assert_eq!(edge, x + screen.width);
            assert_eq!(p.messages.width, 20 + more);
            assert_eq!(p.messages.height, height - 5);
            assert_eq!(p.composer, Rect { y: y + height - 4, height: 3, ..p.messages });
        }
    }
}

#[test]
fn the_middle_is_centered() {
    let mut a = app();
    let near = |n: u16, pct: u16| (n * pct + 50) / 100;
    for (width, height) in [(0, 0), (1, 1), (7, 3), (80, 24), (81, 25), (99, 33), (200, 61)] {
        let screen = Rect { x: 5, y: 3, width, height };
        a.popup = Popup::Help;
        let p = arrange(&a, screen).popup;
        assert_eq!((p.x, p.x + p.width), (5 + near(width, 15), 5 + near(width, 85)));
        assert_eq!((p.y, p.y + p.height), (3 + near(height, 20), 3 + near(height, 80)));
        a.popup = Popup::ConfirmDelete;
        let p = arrange(&a, screen).popup;
        assert_eq!((p.x, p.x + p.width), (5 + near(width, 25), 5 + near(width, 75)));
        assert_eq!((p.y, p.y + p.height), (3 + near(height, 40), 3 + near(height, 60)));
        let p = arrange_form(screen).area;
        assert_eq!((p.x, p.x + p.width), (5 + near(width, 20), 5 + near(width, 80)));
        assert_eq!((p.y, p.y + p.height), (3 + near(height, 22), 3 + near(height, 77)));
    }
    let p = arrange_form(Rect { x: 0, y: 0, width: 100, height: 40 });
    let heights: Vec<u16> = p.rows.iter().map(|r| r.height).collect();
    assert_eq!(heights, vec![1, 3, 3, 3, 1, 1, 8]);
}

#[test]
fn each_message_shows_its_own_time() {
    let mut a = app();
    assert!(a.messages.len() > 1);
    a.messages[0].created_at = Timestamp::new(60, 0).unwrap();
    let stamps = ui::message_stamps(&a);
    let times = ui::message_times(&a);
    assert_eq!(stamps.len(), a.messages.len());
    for i in 0..stamps.len() {
        assert_eq!(stamps[i], a.messages[i].created_at);
        assert_eq!(times[i], a.format_time(&a.messages[i].created_at));
    }
}

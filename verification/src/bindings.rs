//! Which key does what: in the panes, behind the leader key, in the composer and in a popup.

use crate::app::{App, Focus, Popup, WorkView};
use crate::keys;
use crate::keys::{Key, Modifiers};
use crate::shown::is_address;
use crate::text;
use vstd::prelude::*;

verus! {

/// Nothing is left to do, and `new` is how the client is then.
pub open spec fn only(new: App, want: App, work: Seq<WorkView>) -> bool {
    new == want && work.len() == 0
}

/// The keys go to the panes, and no leader key came before.
pub open spec fn is_in_panes(app: App, pending: bool) -> bool {
    !app.composer_open && app.popup == Popup::Closed && !pending
}

/// What is asked for when a server is selected: its channels.
pub open spec fn loads_server(app: App, idx: int) -> Seq<WorkView> {
    if 0 <= idx < app.servers@.len() {
        seq![WorkView::FetchChannels(app.servers@[idx].id)]
    } else {
        Seq::empty()
    }
}

/// What is asked for when a channel is selected: its latest messages.
pub open spec fn loads_channel(app: App, idx: int) -> Seq<WorkView> {
    if 0 <= idx < app.channels@.len() {
        seq![WorkView::FetchHistory { channel: app.channels@[idx].id, before: None }]
    } else {
        Seq::empty()
    }
}

// ---------------------------------------------------------------------------
// Steps
// ---------------------------------------------------------------------------

/// A step down selects the next thing in the pane that has the keys, where there is one, and
/// loads it where it is a server or a channel.
pub proof fn law_a_step_down(app: App, new: App, work: Seq<WorkView>)
    requires
        app.wf(),
        app.fits(),
        app.moves_down(new, work),
    ensures
        app.focus == Focus::Servers ==> if app.server_idx + 1 < app.servers@.len() {
            new == (App { server_idx: (app.server_idx + 1) as usize, ..app }) && work
                == loads_server(app, app.server_idx + 1)
        } else {
            only(new, app, work)
        },
        app.focus == Focus::Channels ==> if app.channel_idx + 1 < app.channels@.len() {
            new == (App { channel_idx: (app.channel_idx + 1) as usize, ..app }) && work
                == loads_channel(app, app.channel_idx + 1)
        } else {
            only(new, app, work)
        },
        app.focus == Focus::Messages ==> if app.msg_idx + 1 < app.messages@.len() {
            only(new, App { msg_idx: (app.msg_idx + 1) as usize, ..app }, work)
        } else {
            only(new, app, work)
        },
        app.focus == Focus::Members && app.member_idx + 1 < app.members@.len() ==> only(
            new,
            App { member_idx: (app.member_idx + 1) as usize, ..app },
            work,
        ),
        app.focus == Focus::Members && app.member_idx + 1 == app.members@.len() ==> only(
            new,
            app,
            work,
        ),
{
}

/// A step up selects the thing before in the pane that has the keys, where there is one, and
/// loads what is selected then where it is a server or a channel.
pub proof fn law_a_step_up(app: App, new: App, work: Seq<WorkView>)
    requires
        app.moves_up(new, work),
    ensures
        app.focus == Focus::Servers ==> ({
            let i: int = if app.server_idx > 0 {
                app.server_idx - 1
            } else {
                0
            };
            new == (App { server_idx: i as usize, ..app }) && work == loads_server(app, i)
        }),
        app.focus == Focus::Channels ==> ({
            let i: int = if app.channel_idx > 0 {
                app.channel_idx - 1
            } else {
                0
            };
            new == (App { channel_idx: i as usize, ..app }) && work == loads_channel(app, i)
        }),
        app.focus == Focus::Messages && app.msg_idx > 0 ==> only(
            new,
            App { msg_idx: (app.msg_idx - 1) as usize, ..app },
            work,
        ),
        app.focus == Focus::Messages && app.msg_idx == 0 ==> only(new, app, work),
        app.focus == Focus::Members && app.member_idx > 0 ==> only(
            new,
            App { member_idx: (app.member_idx - 1) as usize, ..app },
            work,
        ),
        app.focus == Focus::Members && app.member_idx == 0 ==> only(new, app, work),
{
}

/// The top is the first thing in the pane that has the keys, and the bottom is the last one.
pub proof fn law_top_and_bottom(
    app: App,
    top: App,
    bottom: App,
    work: Seq<WorkView>,
    more: Seq<WorkView>,
)
    requires
        app.fits(),
        app.jumps(false, top, work),
        app.jumps(true, bottom, more),
    ensures
        app.focus == Focus::Servers ==> top == (App { server_idx: 0, ..app }) && work
            == loads_server(app, 0),
        app.focus == Focus::Channels ==> top == (App { channel_idx: 0, ..app }) && work
            == loads_channel(app, 0),
        app.focus == Focus::Messages ==> only(top, App { msg_idx: 0, ..app }, work),
        app.focus == Focus::Members ==> only(top, App { member_idx: 0, ..app }, work),
        app.focus == Focus::Servers && app.servers@.len() > 0 ==> bottom == (App {
            server_idx: (app.servers@.len() - 1) as usize,
            ..app
        }) && more == loads_server(app, app.servers@.len() - 1),
        app.focus == Focus::Channels && app.channels@.len() > 0 ==> bottom == (App {
            channel_idx: (app.channels@.len() - 1) as usize,
            ..app
        }) && more == loads_channel(app, app.channels@.len() - 1),
        app.focus == Focus::Messages && app.messages@.len() > 0 ==> only(
            bottom,
            App { msg_idx: (app.messages@.len() - 1) as usize, ..app },
            more,
        ),
        app.focus == Focus::Members && app.members@.len() > 0 ==> only(
            bottom,
            App { member_idx: (app.members@.len() - 1) as usize, ..app },
            more,
        ),
{
}

// ---------------------------------------------------------------------------
// Panes
// ---------------------------------------------------------------------------

/// What the characters do in the panes: `1` to `4` give a pane the keys, `i` opens the
/// composer, `/` the search, `:` and `r` the emojis, `j`, `k`, `g` and `G` move, half a page
/// is ten steps, and `q` ends the program, unless it only forgets the message to be answered.
pub proof fn law_keys_that_move_and_open(
    app: App,
    c: char,
    mods: Modifiers,
    leader: Key,
    new: App,
    new_pending: bool,
    work: Seq<WorkView>,
)
    requires
        is_in_panes(app, false),
        leader != Key::Char(c),
        app.handles_key(Key::Char(c), mods, false, leader, new, new_pending, work),
    ensures
        !new_pending,
        c == '1' ==> only(new, App { focus: Focus::Servers, ..app }, work),
        c == '2' ==> only(new, App { focus: Focus::Channels, ..app }, work),
        c == '3' ==> only(new, App { focus: Focus::Messages, ..app }, work),
        c == '4' ==> only(new, App { focus: Focus::Members, ..app }, work),
        c == 'i' ==> only(new, App { composer_open: true, ..app }, work),
        c == '/' ==> only(
            new,
            App { popup: Popup::Search, popup_input: new.popup_input, ..app },
            work,
        ) && new.popup_input@.len() == 0,
        c == ':' || (c == 'r' && !mods.shift && !mods.control && !mods.other) ==> only(
            new,
            App { popup: Popup::Emoji, popup_input: new.popup_input, ..app },
            work,
        ) && new.popup_input@.len() == 0,
        c == 'j' ==> app.moves_down(new, work),
        c == 'k' ==> app.moves_up(new, work),
        c == 'g' ==> app.jumps(false, new, work),
        c == 'G' ==> app.jumps(true, new, work),
        c == 'd' && mods.control ==> new == app && work == Seq::new(
            10,
            |i: int| WorkView::MoveDown,
        ),
        c == 'u' && mods.control ==> new == app && work == Seq::new(10, |i: int| WorkView::MoveUp),
        c == 'q' && !(app.focus == Focus::Messages && app.reply_to is Some) ==> new == app && work
            == seq![WorkView::Quit],
        c == 'q' && app.focus == Focus::Messages && app.reply_to is Some ==> only(
            new,
            App { reply_to: None, ..app },
            work,
        ),
{
}

/// What the characters do with the selected message: `y` copies its content, `R` answers it,
/// `e` edits it where the user wrote it, `d` asks whether to delete it, and `o` opens the first
/// address in it. Without a message they do nothing, but for `d`.
pub proof fn law_keys_for_a_message(
    app: App,
    c: char,
    mods: Modifiers,
    leader: Key,
    new: App,
    new_pending: bool,
    work: Seq<WorkView>,
)
    requires
        is_in_panes(app, false),
        leader != Key::Char(c),
        app.handles_key(Key::Char(c), mods, false, leader, new, new_pending, work),
    ensures
        app.msg_idx < app.messages@.len() ==> ({
            let m = app.messages@[app.msg_idx as int];
            &&& c == 'y' ==> work == seq![WorkView::Copy(m.content@)] && new == (App {
                status: new.status,
                ..app
            }) && new.status@ == "copied "@ + text::decimal_text(text::utf8_len(m.content@) as nat)
                + " chars"@
            &&& c == 'R' ==> only(new, App { reply_to: Some(m.id), composer_open: true, ..app }, work)
            &&& c == 'e' && m.author.id == app.me.id ==> only(
                new,
                App {
                    editing: Some(m.id),
                    composer: new.composer,
                    composer_open: true,
                    ..app
                },
                work,
            ) && new.composer@ == m.content@
            &&& c == 'e' && m.author.id != app.me.id ==> only(
                new,
                App { status: new.status, ..app },
                work,
            ) && new.status@ == "only your own messages can be edited"@
            &&& c == 'o' ==> new == app && (match keys::first_url(m.content@, 0) {
                Some(url) => work == seq![WorkView::OpenUrl(url)],
                None => work.len() == 0,
            })
        }),
        app.msg_idx >= app.messages@.len() && (c == 'y' || c == 'R' || c == 'e' || c == 'o')
            ==> only(new, app, work),
        c == 'd' && !mods.control ==> only(new, App { popup: Popup::ConfirmDelete, ..app }, work),
        c == 'r' && (mods.shift || mods.control || mods.other) ==> only(new, app, work),
        c == 'u' && !mods.control ==> only(new, app, work),
        !seq![
            'q',
            '1',
            '2',
            '3',
            '4',
            'i',
            '/',
            ':',
            'j',
            'k',
            'G',
            'g',
            'y',
            'R',
            'r',
            'e',
            'd',
            'o',
            'u',
        ].contains(c) ==> only(new, app, work),
{
    let bound = seq![
        'q',
        '1',
        '2',
        '3',
        '4',
        'i',
        '/',
        ':',
        'j',
        'k',
        'G',
        'g',
        'y',
        'R',
        'r',
        'e',
        'd',
        'o',
        'u',
    ];
    assert(bound[0] == 'q' && bound[1] == '1' && bound[2] == '2' && bound[3] == '3' && bound[4]
        == '4' && bound[5] == 'i' && bound[6] == '/' && bound[7] == ':' && bound[8] == 'j'
        && bound[9] == 'k' && bound[10] == 'G' && bound[11] == 'g' && bound[12] == 'y'
        && bound[13] == 'R' && bound[14] == 'r' && bound[15] == 'e' && bound[16] == 'd'
        && bound[17] == 'o' && bound[18] == 'u');
}

/// Tab goes from pane to pane from left to right, and with shift from right to left; Enter
/// loads the selected server or channel; the arrows are steps; and the leader key waits for
/// another one.
pub proof fn law_other_keys_in_the_panes(
    app: App,
    key: Key,
    mods: Modifiers,
    leader: Key,
    new: App,
    new_pending: bool,
    work: Seq<WorkView>,
)
    requires
        is_in_panes(app, false),
        app.handles_key(key, mods, false, leader, new, new_pending, work),
    ensures
        key == leader ==> only(new, app, work) && new_pending,
        key != leader ==> !new_pending,
        key == Key::Tab && key != leader ==> only(
            new,
            App {
                focus: match app.focus {
                    Focus::Servers => Focus::Channels,
                    Focus::Channels => Focus::Messages,
                    Focus::Messages => Focus::Members,
                    Focus::Members => Focus::Servers,
                },
                ..app
            },
            work,
        ),
        key == Key::BackTab && key != leader ==> only(
            new,
            App {
                focus: match app.focus {
                    Focus::Servers => Focus::Members,
                    Focus::Channels => Focus::Servers,
                    Focus::Messages => Focus::Channels,
                    Focus::Members => Focus::Messages,
                },
                ..app
            },
            work,
        ),
        key == Key::Down && key != leader ==> app.moves_down(new, work),
        key == Key::Up && key != leader ==> app.moves_up(new, work),
        key == Key::Enter && key != leader ==> new == app && work == (match app.focus {
            Focus::Servers => loads_server(app, app.server_idx as int),
            Focus::Channels => loads_channel(app, app.channel_idx as int),
            _ => Seq::empty(),
        }),
        (key == Key::Esc || key == Key::Backspace || key is F || key == Key::Other) && key
            != leader ==> only(new, app, work),
{
}

/// What the keys do behind the leader key: a second space opens the channel switcher, `1`,
/// `2` and `4` show or hide a pane, `a` and `o` open popups, `n` the inbox, which is loaded,
/// `p` says who one is, and `l` asks whether to log out.
pub proof fn law_keys_behind_the_leader(
    app: App,
    key: Key,
    mods: Modifiers,
    leader: Key,
    new: App,
    new_pending: bool,
    work: Seq<WorkView>,
)
    requires
        is_in_panes(app, false),
        app.handles_key(key, mods, true, leader, new, new_pending, work),
    ensures
        !new_pending,
        key == Key::Char(' ') ==> only(
            new,
            App {
                popup: Popup::ChannelSwitcher,
                popup_input: new.popup_input,
                popup_idx: 0,
                ..app
            },
            work,
        ) && new.popup_input@.len() == 0,
        key == Key::Char('1') ==> only(new, App { show_servers: !app.show_servers, ..app }, work),
        key == Key::Char('2') ==> only(new, App { show_channels: !app.show_channels, ..app }, work),
        key == Key::Char('4') ==> only(new, App { show_members: !app.show_members, ..app }, work),
        key == Key::Char('a') ==> only(new, App { popup: Popup::MessageActions, ..app }, work),
        key == Key::Char('o') ==> only(new, App { popup: Popup::Help, ..app }, work),
        key == Key::Char('n') ==> new == (App { popup: Popup::Inbox, ..app }) && work == seq![
            WorkView::FetchNotifications,
        ],
        key == Key::Char('p') ==> only(new, App { status: new.status, ..app }, work)
            && new.status@ == app.me.shown_name() + " ("@ + app.me.name@ + ")"@,
        key == Key::Char('v') ==> only(new, App { status: new.status, ..app }, work)
            && new.status@ == "voice is a UI placeholder in v1 (self-hosted audio roadmap)"@,
        key == Key::Char('l') ==> only(new, App { popup: Popup::ConfirmLogout, ..app }, work),
        !(key is Char) ==> only(new, app, work),
        key matches Key::Char(c) ==> c != ' ' && c != '1' && c != '2' && c != '4' && c != 'a' && c
            != 'o' && c != 'n' && c != 'p' && c != 'v' && c != 'l' ==> only(new, app, work),
{
}

/// The leader key by its name: the space bar, Tab, Enter, or a character that is named by
/// itself. What names no key stands for the space bar.
pub proof fn law_the_leader_key_has_a_name(name: Seq<char>, c: char)
    ensures
        keys::leader_named("space"@) == Key::Char(' '),
        keys::leader_named("tab"@) == Key::Tab,
        keys::leader_named("enter"@) == Key::Enter,
        keys::leader_named(seq![c]) == Key::Char(c),
        name.len() != 1 && name != "tab"@ && name != "enter"@ ==> keys::leader_named(name)
            == Key::Char(' '),
{
    reveal_strlit("space");
    reveal_strlit("tab");
    reveal_strlit("enter");
    assert("space"@.len() == 5 && "tab"@.len() == 3 && "enter"@.len() == 5);
    assert("space"@[0] == 's' && "enter"@[0] == 'e');
    assert(seq![c].len() == 1);
}

/// White space around the name of the leader key does not matter, nor does the case of its
/// letters: a name that is `tab` in small letters is Tab, one that is `enter` is Enter, and
/// one that is a single character is that character.
pub proof fn law_the_leader_key_is_named_in_any_case(
    before: Seq<char>,
    name: Seq<char>,
    after: Seq<char>,
)
    requires
        text::is_blank(before),
        text::is_blank(after),
        name.len() > 0,
        !text::is_white_space(name[0]),
        !text::is_white_space(name.last()),
    ensures
        keys::leader_in(before + name + after) == (if text::lowercased(name) == "tab"@ {
            Key::Tab
        } else if text::lowercased(name) == "enter"@ {
            Key::Enter
        } else if text::lowercased(name).len() == 1 {
            Key::Char(text::lowercased(name)[0])
        } else {
            Key::Char(' ')
        }),
{
    text::law_trimming(before, name, after);
    law_the_leader_key_has_a_name(text::lowercased(name), ' ');
    reveal_strlit("space");
    reveal_strlit("tab");
    reveal_strlit("enter");
}

// ---------------------------------------------------------------------------
// The composer
// ---------------------------------------------------------------------------

/// While the composer is open it takes every key: a character is written behind the text,
/// Backspace takes the last one away, Ctrl-U all of them, Escape closes it, and Enter without
/// shift sends what is written. The cursor stands behind the text.
pub proof fn law_keys_in_the_composer(
    app: App,
    key: Key,
    mods: Modifiers,
    pending: bool,
    leader: Key,
    new: App,
    new_pending: bool,
    work: Seq<WorkView>,
)
    requires
        app.composer_open,
        app.handles_key(key, mods, pending, leader, new, new_pending, work),
    ensures
        new_pending == pending,
        key matches Key::Char(c) ==> !(mods.control && (c == 'u' || c == 'v')) ==> {
            &&& only(
                new,
                App {
                    composer: new.composer,
                    composer_cursor: new.composer_cursor,
                    status: new.status,
                    ..app
                },
                work,
            )
            &&& new.composer@ == app.composer@ + seq![c]
            &&& new.composer_cursor == text::utf8_len(new.composer@)
            &&& c != '@' ==> new.status == app.status
            &&& c == '@' ==> new.status@ == "mention: type a name, Tab completion roadmap"@
        },
        key == Key::Char('u') && mods.control ==> only(
            new,
            App { composer: new.composer, ..app },
            work,
        ) && new.composer@.len() == 0,
        key == Key::Char('v') && mods.control ==> only(new, app, work),
        key == Key::Backspace ==> only(
            new,
            App { composer: new.composer, composer_cursor: new.composer_cursor, ..app },
            work,
        ) && new.composer@.len() == (if app.composer@.len() > 0 {
            app.composer@.len() - 1
        } else {
            0
        }) && new.composer@ == app.composer@.take(new.composer@.len() as int)
            && new.composer_cursor == text::utf8_len(new.composer@),
        key == Key::Esc ==> only(
            new,
            App { composer_open: false, editing: None, reply_to: None, ..app },
            work,
        ),
        key == Key::Enter && !mods.shift ==> app.submits(new, work),
        key == Key::Enter && mods.shift ==> only(new, app, work),
        key == Key::Tab || key == Key::BackTab || key == Key::Up || key == Key::Down || key is F
            || key == Key::Other ==> only(new, app, work),
{
    if key == Key::Backspace {
        assert(new.composer@ =~= app.composer@.take(new.composer@.len() as int));
    }
}

// ---------------------------------------------------------------------------
// Popups
// ---------------------------------------------------------------------------

/// A popup that asks is confirmed by `y` or Enter, and any other key takes it away. Only the
/// author's own message is deleted.
pub proof fn law_keys_that_confirm(
    app: App,
    key: Key,
    mods: Modifiers,
    pending: bool,
    leader: Key,
    new: App,
    new_pending: bool,
    work: Seq<WorkView>,
)
    requires
        !app.composer_open,
        app.popup == Popup::ConfirmDelete || app.popup == Popup::ConfirmLogout,
        app.handles_key(key, mods, pending, leader, new, new_pending, work),
    ensures
        new_pending == pending,
        ({
            let yes = key == Key::Char('y') || key == Key::Char('Y') || key == Key::Enter;
            let own = app.msg_idx < app.messages@.len() && app.messages@[app.msg_idx as int].author.id
                == app.me.id;
            &&& !yes ==> only(new, App { popup: Popup::Closed, ..app }, work)
            &&& yes && app.popup == Popup::ConfirmLogout ==> new == (App {
                popup: Popup::Closed,
                ..app
            }) && work == seq![WorkView::Logout]
            &&& yes && app.popup == Popup::ConfirmDelete && own ==> new == (App {
                popup: Popup::Closed,
                ..app
            }) && work == seq![WorkView::Delete(app.messages@[app.msg_idx as int].id)]
            &&& yes && app.popup == Popup::ConfirmDelete && !own && app.msg_idx
                < app.messages@.len() ==> only(
                new,
                App { popup: Popup::Closed, status: new.status, ..app },
                work,
            ) && new.status@ == "only your own messages can be deleted"@
        }),
{
}

/// In any other popup a character is typed into its input, and so the first row is chosen
/// again; Backspace takes the last one away; the arrows choose a row; and Escape empties the
/// input, or closes the popup where it is empty, as `q` does then.
pub proof fn law_keys_in_a_popup(
    app: App,
    key: Key,
    mods: Modifiers,
    pending: bool,
    leader: Key,
    new: App,
    new_pending: bool,
    work: Seq<WorkView>,
)
    requires
        !app.composer_open,
        app.popup != Popup::Closed,
        app.popup != Popup::ConfirmDelete,
        app.popup != Popup::ConfirmLogout,
        app.popup_idx < usize::MAX,
        app.handles_key(key, mods, pending, leader, new, new_pending, work),
    ensures
        new_pending == pending,
        (key == Key::Esc || key == Key::Char('q')) && app.popup_input@.len() == 0 ==> only(
            new,
            App { popup: Popup::Closed, popup_input: new.popup_input, popup_idx: 0, ..app },
            work,
        ) && new.popup_input@.len() == 0,
        key == Key::Esc && app.popup_input@.len() > 0 ==> only(
            new,
            App { popup_input: new.popup_input, ..app },
            work,
        ) && new.popup_input@.len() == 0,
        key matches Key::Char(c) ==> !(c == 'q' && app.popup_input@.len() == 0) && !(c == 'k'
            && mods.control) ==> only(
            new,
            App { popup_input: new.popup_input, popup_idx: 0, ..app },
            work,
        ) && new.popup_input@ == app.popup_input@ + seq![c],
        key == Key::Backspace ==> only(
            new,
            App { popup_input: new.popup_input, popup_idx: 0, ..app },
            work,
        ) && new.popup_input@.len() == (if app.popup_input@.len() > 0 {
            app.popup_input@.len() - 1
        } else {
            0
        }) && new.popup_input@ == app.popup_input@.take(new.popup_input@.len() as int),
        key == Key::Down ==> only(
            new,
            App { popup_idx: (app.popup_idx + 1) as usize, ..app },
            work,
        ),
        key == Key::Up || (key == Key::Char('k') && mods.control) ==> only(
            new,
            App {
                popup_idx: if app.popup_idx > 0 {
                    (app.popup_idx - 1) as usize
                } else {
                    0
                },
                ..app
            },
            work,
        ),
        key == Key::Enter ==> app.activates(new, work),
        key == Key::Tab || key == Key::BackTab || key is F || key == Key::Other ==> only(
            new,
            app,
            work,
        ),
{
    if key == Key::Backspace {
        assert(new.popup_input@ =~= app.popup_input@.take(new.popup_input@.len() as int));
    }
}

/// What Enter does with the chosen row: the switcher selects the channel and loads it, with
/// the keys on its messages; the search looks for what was typed in the selected channel; the
/// emoji is written into the composer where that is open, or else is a reaction to the
/// selected message. The popup is closed and empty then.
pub proof fn law_enter_takes_what_is_chosen(app: App, new: App, work: Seq<WorkView>)
    requires
        app.activates(new, work),
    ensures
        new.popup == Popup::Closed,
        new.popup_idx == 0,
        app.popup == Popup::ChannelSwitcher || app.popup == Popup::Search || app.popup
            == Popup::Emoji ==> new.popup_input@.len() == 0,
        app.popup == Popup::ChannelSwitcher && app.popup_idx < app.switcher().len() ==> ({
            let idx = app.switcher()[app.popup_idx as int].1;
            new == (App {
                channel_idx: idx,
                focus: Focus::Messages,
                popup: Popup::Closed,
                popup_input: new.popup_input,
                popup_idx: 0,
                ..app
            }) && work == loads_channel(app, idx as int)
        }),
        app.popup == Popup::Search ==> work == seq![
            WorkView::Search {
                query: app.popup_input@,
                channel: if app.channel_idx < app.channels@.len() {
                    Some(app.channels@[app.channel_idx as int].id)
                } else {
                    None
                },
            },
        ],
        app.popup == Popup::Emoji && app.popup_idx < 10 ==> ({
            let e = crate::dashboard::emojis()[app.popup_idx as int];
            if app.composer_open {
                work.len() == 0 && new.composer@ == app.composer@ + e
            } else {
                new.composer == app.composer && work == (if app.msg_idx < app.messages@.len() {
                    seq![
                        WorkView::React { id: app.messages@[app.msg_idx as int].id, emoji: e },
                    ]
                } else {
                    Seq::empty()
                })
            }
        }),
        app.popup == Popup::Emoji && app.popup_idx >= 10 ==> work.len() == 0,
        app.popup == Popup::ChannelSwitcher && app.popup_idx >= app.switcher().len() ==> only(
            new,
            App { popup: Popup::Closed, popup_input: new.popup_input, popup_idx: 0, ..app },
            work,
        ),
        app.popup == Popup::Search ==> new == (App {
            popup: Popup::Closed,
            popup_input: new.popup_input,
            popup_idx: 0,
            ..app
        }),
        app.popup == Popup::Emoji ==> new == (App {
            popup: Popup::Closed,
            popup_input: new.popup_input,
            popup_idx: 0,
            composer: new.composer,
            ..app
        }),
        app.popup == Popup::Emoji && !(app.composer_open && app.popup_idx < 10) ==> new.composer
            == app.composer,
        app.popup == Popup::Help || app.popup == Popup::Inbox || app.popup
            == Popup::MessageActions ==> only(
            new,
            App { popup: Popup::Closed, popup_idx: 0, ..app },
            work,
        ),
{
}

// ---------------------------------------------------------------------------
// Addresses
// ---------------------------------------------------------------------------

/// A word begins at a position.
pub open spec fn begins_word(s: Seq<char>, i: int) -> bool {
    0 <= i < s.len() && !text::is_white_space(s[i]) && (i == 0 || text::is_white_space(s[i - 1]))
}

proof fn lemma_word_is_address(s: Seq<char>, i: int)
    requires
        0 <= i < s.len(),
        !text::is_white_space(s[i]),
    ensures
        ({
            let word = s.subrange(i, text::next_space(s, i));
            (text::begins_with(word, "http://"@) || text::begins_with(word, "https://"@))
                == is_address(s.skip(i))
        }),
{
    reveal_strlit("http://");
    reveal_strlit("https://");
    let end = text::next_space(s, i);
    text::lemma_next_space(s, i);
    let word = s.subrange(i, end);
    let rest = s.skip(i);
    let a = seq!['h', 't', 't', 'p', ':', '/', '/'];
    let b = seq!['h', 't', 't', 'p', 's', ':', '/', '/'];
    assert("http://"@ =~= a);
    assert("https://"@ =~= b);
    if word.len() >= 7 {
        assert(word.take(7) =~= rest.take(7));
    } else if rest.len() >= 7 && rest.take(7) == a {
        let t = rest.take(7);
        assert(t[0] == rest[0] && t[1] == rest[1] && t[2] == rest[2] && t[3] == rest[3] && t[4]
            == rest[4] && t[5] == rest[5] && t[6] == rest[6]);
        assert(text::is_white_space(s[end]));
        assert(s[end] == rest[end - i]);
    }
    if word.len() >= 8 {
        assert(word.take(8) =~= rest.take(8));
    } else if rest.len() >= 8 && rest.take(8) == b {
        let t = rest.take(8);
        assert(t[0] == rest[0] && t[1] == rest[1] && t[2] == rest[2] && t[3] == rest[3] && t[4]
            == rest[4] && t[5] == rest[5] && t[6] == rest[6] && t[7] == rest[7]);
        assert(text::is_white_space(s[end]));
        assert(s[end] == rest[end - i]);
    }
}

proof fn lemma_first_url(s: Seq<char>, i: int) -> (k: int)
    requires
        0 <= i <= s.len(),
        i == 0 || i == s.len() || text::is_white_space(s[i - 1]) || text::is_white_space(s[i]),
    ensures
        match keys::first_url(s, i) {
            Some(url) => {
                &&& i <= k
                &&& begins_word(s, k)
                &&& is_address(s.skip(k))
                &&& url == s.subrange(k, text::next_space(s, k))
                &&& forall|j: int|
                    i <= j < k && #[trigger] begins_word(s, j) ==> !is_address(s.skip(j))
            },
            None => forall|j: int|
                i <= j && #[trigger] begins_word(s, j) ==> !is_address(s.skip(j)),
        },
    decreases s.len() - i,
{
    if i >= s.len() {
        i
    } else if text::is_white_space(s[i]) {
        lemma_first_url(s, i + 1)
    } else {
        lemma_word_is_address(s, i);
        text::lemma_next_space(s, i);
        let end = text::next_space(s, i);
        if is_address(s.skip(i)) {
            i
        } else {
            assert(end > i);
            let k = lemma_first_url(s, end);
            assert forall|j: int| i <= j < end && #[trigger] begins_word(s, j) implies !is_address(
                s.skip(j),
            ) by {
                if j > i {
                    assert(!text::is_white_space(s[j - 1]));
                }
            }
            k
        }
    }
}

/// The address that is opened is the first word that begins with `http://` or `https://`,
/// whole up to the next white space. There is none only where no word begins so.
pub proof fn law_the_first_address_is_opened(s: Seq<char>) -> (k: int)
    ensures
        match keys::first_url(s, 0) {
            Some(url) => {
                &&& begins_word(s, k)
                &&& is_address(s.skip(k))
                &&& url == s.subrange(k, k + url.len())
                &&& forall|j: int| 0 <= j < url.len() ==> !text::is_white_space(#[trigger] url[j])
                &&& k + url.len() == s.len() || text::is_white_space(s[k + url.len()])
                &&& forall|j: int|
                    0 <= j < k && #[trigger] begins_word(s, j) ==> !is_address(s.skip(j))
            },
            None => forall|j: int| #[trigger] begins_word(s, j) ==> !is_address(s.skip(j)),
        },
{
    let k = lemma_first_url(s, 0);
    if let Some(url) = keys::first_url(s, 0) {
        text::lemma_next_space(s, k);
        assert forall|j: int| 0 <= j < url.len() implies !text::is_white_space(
            #[trigger] url[j],
        ) by {
            assert(url[j] == s[k + j]);
        }
    }
    k
}

} // verus!

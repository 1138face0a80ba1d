//! The state of the terminal client: servers, channels, messages and members, what is
//! selected, the composer and the popups.

use crate::client;
use crate::client::{Client, HttpRequest, Method, Payload};
use crate::config::{AppOptions, Theme};
use crate::id;
use crate::id::Uuid;
use crate::markdown;
use crate::protocol::{
    Channel, Member, Message, MessagesPage, Notification, ReactionCount, Server, User, WsEvent,
};
use crate::text;
use crate::time;
use crate::time::Timestamp;
use vstd::prelude::*;

verus! {

/// The pane that the keys go to.
#[derive(Debug, Clone, Copy, PartialEq, Eq, Structural)]
pub enum Focus {
    Servers,
    Channels,
    Messages,
    Members,
}

impl Default for Focus {
    fn default() -> (r: Focus)
        ensures
            r == Focus::Servers,
    {
        Focus::Servers
    }
}

impl Focus {
    /// The place of a pane, from the left.
    pub open spec fn place(self) -> int {
        match self {
            Focus::Servers => 0,
            Focus::Channels => 1,
            Focus::Messages => 2,
            Focus::Members => 3,
        }
    }

    /// The pane to the right, from the last one round to the first.
    pub fn next(self) -> (r: Focus)
        ensures
            r.place() == (self.place() + 1) % 4,
    {
        match self {
            Focus::Servers => Focus::Channels,
            Focus::Channels => Focus::Messages,
            Focus::Messages => Focus::Members,
            Focus::Members => Focus::Servers,
        }
    }

    /// The pane to the left, from the first one round to the last.
    pub fn prev(self) -> (r: Focus)
        ensures
            r.place() == (self.place() + 3) % 4,
    {
        match self {
            Focus::Servers => Focus::Members,
            Focus::Channels => Focus::Servers,
            Focus::Messages => Focus::Channels,
            Focus::Members => Focus::Messages,
        }
    }
}

/// Stepping forth and back ends where it began.
pub proof fn law_focus_steps_back(a: Focus, forth: Focus, back: Focus)
    requires
        forth.place() == (a.place() + 1) % 4,
        back.place() == (forth.place() + 3) % 4,
    ensures
        back == a,
{
}

/// What lies over the panes.
#[derive(Debug, Clone, Copy, PartialEq, Eq, Structural)]
pub enum Popup {
    Closed,
    Help,
    ChannelSwitcher,
    Search,
    Inbox,
    Emoji,
    ConfirmDelete,
    ConfirmLogout,
    MessageActions,
}

#[derive(Debug)]
pub struct App {
    pub options: AppOptions,
    pub client: Client,
    pub me: User,
    pub servers: Vec<Server>,
    pub channels: Vec<Channel>,
    pub members: Vec<Member>,
    pub messages: Vec<Message>,
    pub notifications: Vec<Notification>,
    pub focus: Focus,
    pub server_idx: usize,
    pub channel_idx: usize,
    pub msg_idx: usize,
    pub member_idx: usize,
    pub msg_scroll: usize,
    pub composer_open: bool,
    pub composer: String,
    pub composer_cursor: usize,
    pub reply_to: Option<Uuid>,
    pub editing: Option<Uuid>,
    pub popup: Popup,
    pub popup_input: String,
    pub popup_idx: usize,
    pub status: String,
    pub show_members: bool,
    pub show_servers: bool,
    pub show_channels: bool,
    pub has_more: bool,
    pub theme: Theme,
    /// What is printed once the terminal is back to normal.
    pub exit_message: Option<String>,
}

/// What the client has to do besides changing its own state.
#[derive(Debug)]
#[allow(inconsistent_fields)]
pub enum Work {
    /// One step down or up in the pane that has the keys.
    MoveDown,
    MoveUp,
    /// Requests to the server.
    FetchServers,
    FetchChannels(Uuid),
    FetchMembers(Uuid),
    FetchHistory { channel: Uuid, before: Option<Uuid> },
    FetchNotifications,
    Send { channel: Uuid, content: String, reply_to: Option<Uuid> },
    Edit { id: Uuid, content: String },
    Delete(Uuid),
    React { id: Uuid, emoji: String },
    Search { query: String, channel: Option<Uuid> },
    Logout,
    /// A notification on the desktop.
    Toast { summary: String, body: String },
    /// An address to be opened in a browser.
    OpenUrl(String),
    /// A text for the clipboard.
    Copy(String),
    /// The stored session token is to be removed.
    ClearToken,
    Quit,
}

/// What some work is.
#[allow(inconsistent_fields)]
pub enum WorkView {
    MoveDown,
    MoveUp,
    FetchServers,
    FetchChannels(Uuid),
    FetchMembers(Uuid),
    FetchHistory { channel: Uuid, before: Option<Uuid> },
    FetchNotifications,
    Send { channel: Uuid, content: Seq<char>, reply_to: Option<Uuid> },
    Edit { id: Uuid, content: Seq<char> },
    Delete(Uuid),
    React { id: Uuid, emoji: Seq<char> },
    Search { query: Seq<char>, channel: Option<Uuid> },
    Logout,
    Toast { summary: Seq<char>, body: Seq<char> },
    OpenUrl(Seq<char>),
    Copy(Seq<char>),
    ClearToken,
    Quit,
}

impl View for Work {
    type V = WorkView;

    open spec fn view(&self) -> WorkView {
        match self {
            Work::MoveDown => WorkView::MoveDown,
            Work::MoveUp => WorkView::MoveUp,
            Work::FetchServers => WorkView::FetchServers,
            Work::FetchChannels(s) => WorkView::FetchChannels(*s),
            Work::FetchMembers(s) => WorkView::FetchMembers(*s),
            Work::FetchHistory { channel, before } => WorkView::FetchHistory {
                channel: *channel,
                before: *before,
            },
            Work::FetchNotifications => WorkView::FetchNotifications,
            Work::Send { channel, content, reply_to } => WorkView::Send {
                channel: *channel,
                content: content@,
                reply_to: *reply_to,
            },
            Work::Edit { id, content } => WorkView::Edit { id: *id, content: content@ },
            Work::Delete(id) => WorkView::Delete(*id),
            Work::React { id, emoji } => WorkView::React { id: *id, emoji: emoji@ },
            Work::Search { query, channel } => WorkView::Search {
                query: query@,
                channel: *channel,
            },
            Work::Logout => WorkView::Logout,
            Work::Toast { summary, body } => WorkView::Toast { summary: summary@, body: body@ },
            Work::OpenUrl(url) => WorkView::OpenUrl(url@),
            Work::Copy(text) => WorkView::Copy(text@),
            Work::ClearToken => WorkView::ClearToken,
            Work::Quit => WorkView::Quit,
        }
    }
}

pub open spec fn work_views(v: Seq<Work>) -> Seq<WorkView> {
    v.map_values(|w: Work| w@)
}

/// Nothing is left to do.
pub fn no_work() -> (r: Vec<Work>)
    ensures
        work_views(r@) == Seq::<WorkView>::empty(),
{
    let r: Vec<Work> = Vec::new();
    assert(work_views(r@) =~= Seq::<WorkView>::empty());
    r
}

/// One thing is left to do.
pub fn one_work(w: Work) -> (r: Vec<Work>)
    ensures
        work_views(r@) == seq![w@],
{
    let r: Vec<Work> = vec![w];
    assert(work_views(r@) =~= seq![w@]);
    r
}

/// What came of a request.
#[derive(Debug)]
pub enum Answer {
    Servers(Vec<Server>),
    Channels(Vec<Channel>),
    Members(Vec<Member>),
    Page(MessagesPage),
    Notifications(Vec<Notification>),
    Message(Message),
    Messages(Vec<Message>),
    Done,
    /// It failed, for a reason.
    Failed(String),
}

/// A place among `len` things: one of them, or the start where there are none.
pub open spec fn is_place(idx: usize, len: nat) -> bool {
    idx < len || (len == 0 && idx == 0)
}

/// The place that is left of a place when only `len` things are.
pub open spec fn clamped(idx: int, len: nat) -> int {
    if len == 0 {
        0
    } else if idx >= len {
        len - 1
    } else {
        idx
    }
}

/// The last place.
pub open spec fn last_place(len: nat) -> int {
    if len == 0 {
        0
    } else {
        len - 1
    }
}

pub(crate) fn clamp(idx: usize, len: usize) -> (r: usize)
    ensures
        r == clamped(idx as int, len as nat),
{
    if len == 0 {
        0
    } else if idx >= len {
        len - 1
    } else {
        idx
    }
}

/// The first message with an identifier.
pub open spec fn place_of(messages: Seq<Message>, message: Uuid, from: int) -> Option<int>
    decreases messages.len() - from,
{
    if from < 0 || from >= messages.len() {
        None
    } else if messages[from].id == message {
        Some(from)
    } else {
        place_of(messages, message, from + 1)
    }
}

fn position(messages: &Vec<Message>, message: Uuid) -> (r: Option<usize>)
    ensures
        match r {
            Some(k) => place_of(messages@, message, 0) == Some(k as int) && k < messages@.len(),
            None => place_of(messages@, message, 0) is None,
        },
{
    let mut i: usize = 0;
    while i < messages.len()
        invariant
            place_of(messages@, message, 0) == place_of(messages@, message, i as int),
        decreases messages@.len() - i,
    {
        if messages[i].id == message {
            return Some(i);
        }
        i += 1;
    }
    None
}

/// The messages with the first one of an identifier replaced, where there is one.
pub open spec fn with_message(messages: Seq<Message>, message: Uuid, m: Message) -> Seq<Message> {
    match place_of(messages, message, 0) {
        Some(k) => messages.update(k, m),
        None => messages,
    }
}

/// The messages without those of an identifier.
pub open spec fn without_message(messages: Seq<Message>, message: Uuid) -> Seq<Message> {
    messages.filter(|m: Message| m.id != message)
}

fn remove_message(messages: &mut Vec<Message>, message: Uuid)
    ensures
        final(messages)@ == without_message(old(messages)@, message),
{
    let ghost all = messages@;
    let ghost keep = |m: Message| m.id != message;
    let ghost mut seen: int = 0;
    let mut i: usize = 0;
    proof {
        reveal(Seq::filter);
        assert(all.take(0).filter(keep) =~= Seq::empty());
        assert(messages@ =~= all.take(0).filter(keep) + all.skip(0));
    }
    while i < messages.len()
        invariant
            keep == (|m: Message| m.id != message),
            0 <= seen <= all.len(),
            all.take(seen).filter(keep).len() == i,
            messages@ == all.take(seen).filter(keep) + all.skip(seen),
        decreases all.len() - seen,
    {
        proof {
            reveal(Seq::filter);
            assert(messages@[i as int] == all.skip(seen)[0]);
            assert(all.take(seen + 1).drop_last() =~= all.take(seen));
            assert(all.take(seen + 1).last() == all[seen]);
        }
        if messages[i].id == message {
            messages.remove(i);
            assert(messages@ =~= all.take(seen + 1).filter(keep) + all.skip(seen + 1));
        } else {
            i += 1;
            assert(messages@ =~= all.take(seen + 1).filter(keep) + all.skip(seen + 1));
        }
        proof {
            seen = seen + 1;
        }
    }
    assert(seen == all.len());
    assert(all.take(seen) =~= all);
    assert(messages@ =~= all.filter(keep));
}

/// The first notification that was not read.
pub open spec fn first_unread(ns: Seq<Notification>, from: int) -> Option<int>
    decreases ns.len() - from,
{
    if from < 0 || from >= ns.len() {
        None
    } else if !ns[from].read {
        Some(from)
    } else {
        first_unread(ns, from + 1)
    }
}

fn find_unread(ns: &Vec<Notification>) -> (r: Option<usize>)
    ensures
        match r {
            Some(k) => first_unread(ns@, 0) == Some(k as int) && k < ns@.len(),
            None => first_unread(ns@, 0) is None,
        },
{
    let mut i: usize = 0;
    while i < ns.len()
        invariant
            first_unread(ns@, 0) == first_unread(ns@, i as int),
        decreases ns@.len() - i,
    {
        if !ns[i].read {
            return Some(i);
        }
        i += 1;
    }
    None
}

impl App {
    /// What is selected is there, or nothing is.
    pub open spec fn wf(self) -> bool {
        &&& is_place(self.server_idx, self.servers@.len())
        &&& is_place(self.channel_idx, self.channels@.len())
        &&& is_place(self.msg_idx, self.messages@.len())
        &&& self.member_idx < usize::MAX
    }

    /// There are no more things than a machine can count.
    pub open spec fn fits(self) -> bool {
        &&& self.servers@.len() <= usize::MAX
        &&& self.channels@.len() <= usize::MAX
        &&& self.messages@.len() <= usize::MAX
        &&& self.members@.len() <= usize::MAX
    }

    /// Only the line at the bottom changed: it says `s`.
    pub open spec fn says(self, old: App, s: Seq<char>) -> bool {
        self == (App { status: self.status, ..old }) && self.status@ == s
    }

    /// Nothing is loaded, selected, written or open yet.
    pub open spec fn is_new(self, options: AppOptions, client: Client, me: User, theme: Theme) -> bool {
        &&& self.options == options && self.client == client && self.me == me && self.theme
            == theme
        &&& self.servers@.len() == 0 && self.channels@.len() == 0 && self.members@.len() == 0
        &&& self.messages@.len() == 0 && self.notifications@.len() == 0
        &&& self.focus == Focus::Servers
        &&& self.server_idx == 0 && self.channel_idx == 0 && self.msg_idx == 0
        &&& self.member_idx == 0 && self.msg_scroll == 0
        &&& !self.composer_open && self.composer@.len() == 0 && self.composer_cursor == 0
        &&& self.reply_to is None && self.editing is None
        &&& self.popup == Popup::Closed && self.popup_input@.len() == 0 && self.popup_idx == 0
        &&& self.show_members && self.show_servers && self.show_channels && !self.has_more
        &&& self.exit_message is None
    }

    pub fn new(options: AppOptions, client: Client, me: User, theme: Theme) -> (r: App)
        ensures
            r.wf(),
            r.is_new(options, client, me, theme),
            r.options == options,
            r.client == client,
            r.me == me,
            r.theme == theme,
            r.servers@.len() == 0,
            r.channels@.len() == 0,
            r.members@.len() == 0,
            r.messages@.len() == 0,
            r.notifications@.len() == 0,
            r.focus == Focus::Servers,
            r.server_idx == 0,
            r.channel_idx == 0,
            r.msg_idx == 0,
            r.member_idx == 0,
            r.msg_scroll == 0,
            !r.composer_open,
            r.composer@.len() == 0,
            r.composer_cursor == 0,
            r.reply_to is None,
            r.editing is None,
            r.popup == Popup::Closed,
            r.popup_input@.len() == 0,
            r.popup_idx == 0,
            r.status@ == "Connecting… (Space for shortcuts, / search, i compose)"@,
            r.show_members,
            r.show_servers,
            r.show_channels,
            !r.has_more,
            r.exit_message is None,
    {
        App {
            options,
            client,
            me,
            servers: Vec::new(),
            channels: Vec::new(),
            members: Vec::new(),
            messages: Vec::new(),
            notifications: Vec::new(),
            focus: Focus::Servers,
            server_idx: 0,
            channel_idx: 0,
            msg_idx: 0,
            member_idx: 0,
            msg_scroll: 0,
            composer_open: false,
            composer: String::new(),
            composer_cursor: 0,
            reply_to: None,
            editing: None,
            popup: Popup::Closed,
            popup_input: String::new(),
            popup_idx: 0,
            status: "Connecting… (Space for shortcuts, / search, i compose)".to_owned(),
            show_members: true,
            show_servers: true,
            show_channels: true,
            has_more: false,
            theme,
            exit_message: None,
        }
    }

    pub open spec fn server(self) -> Option<Server> {
        if self.server_idx < self.servers@.len() {
            Some(self.servers@[self.server_idx as int])
        } else {
            None
        }
    }

    pub open spec fn channel(self) -> Option<Channel> {
        if self.channel_idx < self.channels@.len() {
            Some(self.channels@[self.channel_idx as int])
        } else {
            None
        }
    }

    pub open spec fn message(self) -> Option<Message> {
        if self.msg_idx < self.messages@.len() {
            Some(self.messages@[self.msg_idx as int])
        } else {
            None
        }
    }

    pub fn selected_server(&self) -> (r: Option<&Server>)
        ensures
            match r {
                Some(s) => self.server() == Some(*s),
                None => self.server() is None,
            },
    {
        if self.server_idx < self.servers.len() {
            Some(&self.servers[self.server_idx])
        } else {
            None
        }
    }

    pub fn selected_channel(&self) -> (r: Option<&Channel>)
        ensures
            match r {
                Some(c) => self.channel() == Some(*c),
                None => self.channel() is None,
            },
    {
        if self.channel_idx < self.channels.len() {
            Some(&self.channels[self.channel_idx])
        } else {
            None
        }
    }

    pub fn selected_message(&self) -> (r: Option<&Message>)
        ensures
            match r {
                Some(m) => self.message() == Some(*m),
                None => self.message() is None,
            },
    {
        if self.msg_idx < self.messages.len() {
            Some(&self.messages[self.msg_idx])
        } else {
            None
        }
    }
}

// ---------------------------------------------------------------------------
// Loading
// ---------------------------------------------------------------------------

impl App {
    pub open spec fn asks_channels(self) -> Seq<WorkView> {
        match self.server() {
            Some(s) => seq![WorkView::FetchChannels(s.id)],
            None => Seq::empty(),
        }
    }

    pub open spec fn asks_members(self) -> Seq<WorkView> {
        match self.server() {
            Some(s) => seq![WorkView::FetchMembers(s.id)],
            None => Seq::empty(),
        }
    }

    pub open spec fn asks_history(self, before: Option<Uuid>) -> Seq<WorkView> {
        match self.channel() {
            Some(c) => seq![WorkView::FetchHistory { channel: c.id, before }],
            None => Seq::empty(),
        }
    }

    /// Asks for the servers.
    pub fn refresh_servers(&self) -> (r: Vec<Work>)
        ensures
            work_views(r@) == seq![WorkView::FetchServers],
    {
        one_work(Work::FetchServers)
    }

    /// Asks for the channels of the selected server.
    pub fn refresh_channels(&self) -> (r: Vec<Work>)
        ensures
            work_views(r@) == self.asks_channels(),
    {
        match self.selected_server() {
            Some(s) => one_work(Work::FetchChannels(s.id)),
            None => no_work(),
        }
    }

    /// Asks for the members of the selected server.
    pub fn refresh_members(&self) -> (r: Vec<Work>)
        ensures
            work_views(r@) == self.asks_members(),
    {
        match self.selected_server() {
            Some(s) => one_work(Work::FetchMembers(s.id)),
            None => no_work(),
        }
    }

    /// Asks for a page of the selected channel's history.
    pub fn refresh_history(&self, before: Option<Uuid>) -> (r: Vec<Work>)
        ensures
            work_views(r@) == self.asks_history(before),
    {
        match self.selected_channel() {
            Some(c) => one_work(Work::FetchHistory { channel: c.id, before }),
            None => no_work(),
        }
    }

    /// Asks for the notifications.
    pub fn refresh_notifications(&self) -> (r: Vec<Work>)
        ensures
            work_views(r@) == seq![WorkView::FetchNotifications],
    {
        one_work(Work::FetchNotifications)
    }

    /// What the servers, or the lack of them, change.
    pub open spec fn takes_servers(self, answer: Answer, new: App) -> bool {
        match answer {
            Answer::Servers(s) => {
                &&& new == (App {
                    servers: s,
                    server_idx: clamped(self.server_idx as int, s@.len()) as usize,
                    status: new.status,
                    ..self
                })
                &&& new.status@.len() == 0
            },
            Answer::Failed(e) => new.says(self, "servers: "@ + e@),
            _ => new == self,
        }
    }

    fn take_servers(&mut self, answer: Answer)
        requires
            old(self).wf(),
        ensures
            old(self).takes_servers(answer, *final(self)),
            final(self).wf(),
    {
        match answer {
            Answer::Servers(s) => {
                self.server_idx = clamp(self.server_idx, s.len());
                self.servers = s;
                self.status = String::new();
            },
            Answer::Failed(e) => {
                self.status = text::joined("servers: ", e.as_str());
            },
            _ => {},
        }
    }

    /// What the channels change: the first one is selected, and then the members and the
    /// history are asked for.
    pub open spec fn takes_channels(self, answer: Answer, new: App, work: Seq<WorkView>) -> bool {
        match answer {
            Answer::Channels(c) => {
                &&& new == (App { channels: c, channel_idx: 0, ..self })
                &&& work == new.asks_members() + new.asks_history(None)
            },
            Answer::Failed(e) => new.says(self, "channels: "@ + e@) && work.len() == 0,
            _ => new == self && work.len() == 0,
        }
    }

    fn take_channels(&mut self, answer: Answer) -> (r: Vec<Work>)
        requires
            old(self).wf(),
        ensures
            old(self).takes_channels(answer, *final(self), work_views(r@)),
            final(self).wf(),
    {
        match answer {
            Answer::Channels(c) => {
                self.channels = c;
                self.channel_idx = 0;
                let mut work = self.refresh_members();
                let mut more = self.refresh_history(None);
                let ghost both = work@ + more@;
                work.append(&mut more);
                assert(work_views(both) =~= self.asks_members() + self.asks_history(None));
                work
            },
            Answer::Failed(e) => {
                self.status = text::joined("channels: ", e.as_str());
                no_work()
            },
            _ => no_work(),
        }
    }

    pub open spec fn takes_members(self, answer: Answer, new: App) -> bool {
        match answer {
            Answer::Members(m) => new == (App { members: m, ..self }),
            _ => new == self,
        }
    }

    fn take_members(&mut self, answer: Answer)
        requires
            old(self).wf(),
        ensures
            old(self).takes_members(answer, *final(self)),
            final(self).wf(),
    {
        match answer {
            Answer::Members(m) => {
                self.members = m;
            },
            _ => {},
        }
    }

    /// What a page changes: it stands alone with its last message selected, or, where older
    /// messages were asked for, before those that are there.
    pub open spec fn takes_history(self, before: Option<Uuid>, answer: Answer, new: App) -> bool {
        match answer {
            Answer::Page(page) => {
                &&& new == (App {
                    messages: new.messages,
                    msg_idx: new.msg_idx,
                    has_more: page.has_more,
                    status: new.status,
                    ..self
                })
                &&& new.status@.len() == 0
                &&& if before is Some {
                    new.messages@ == page.items@ + self.messages@ && new.msg_idx == self.msg_idx
                } else {
                    new.messages@ == page.items@ && new.msg_idx == last_place(page.items@.len())
                }
            },
            Answer::Failed(e) => new.says(self, "history: "@ + e@),
            _ => new == self,
        }
    }

    fn take_history(&mut self, before: Option<Uuid>, answer: Answer)
        requires
            old(self).wf(),
        ensures
            old(self).takes_history(before, answer, *final(self)),
            final(self).wf(),
    {
        match answer {
            Answer::Page(page) => {
                let MessagesPage { items, has_more } = page;
                let mut items = items;
                if before.is_some() {
                    items.append(&mut self.messages);
                } else {
                    self.msg_idx = clamp(usize::MAX, items.len());
                }
                self.messages = items;
                self.has_more = has_more;
                self.status = String::new();
            },
            Answer::Failed(e) => {
                self.status = text::joined("history: ", e.as_str());
            },
            _ => {},
        }
    }

    /// What the notifications change. Where desktop notifications are on, the first one that
    /// was not read is shown there.
    pub open spec fn takes_notifications(
        self,
        answer: Answer,
        new: App,
        work: Seq<WorkView>,
    ) -> bool {
        match answer {
            Answer::Notifications(n) => {
                &&& new == (App { notifications: n, ..self })
                &&& work == match first_unread(n@, 0) {
                    Some(k) => if self.options.notifications.desktop_notifications {
                        seq![
                            WorkView::Toast {
                                summary: "tuimessager: "@ + n@[k].message.author.shown_name(),
                                body: text::first_chars(n@[k].message.content@, 200),
                            },
                        ]
                    } else {
                        Seq::empty()
                    },
                    None => Seq::empty(),
                }
            },
            _ => new == self && work.len() == 0,
        }
    }

    fn take_notifications(&mut self, answer: Answer) -> (r: Vec<Work>)
        requires
            old(self).wf(),
        ensures
            old(self).takes_notifications(answer, *final(self), work_views(r@)),
            final(self).wf(),
    {
        match answer {
            Answer::Notifications(n) => {
                let work = match find_unread(&n) {
                    Some(k) => if self.options.notifications.desktop_notifications {
                        let summary = text::joined("tuimessager: ", n[k].message.author.display());
                        let body = text::take_chars(n[k].message.content.as_str(), 200);
                        one_work(Work::Toast { summary, body })
                    } else {
                        no_work()
                    },
                    None => no_work(),
                };
                self.notifications = n;
                work
            },
            _ => no_work(),
        }
    }
}

// ---------------------------------------------------------------------------
// Sending, editing, deleting, reacting, searching, logging out
// ---------------------------------------------------------------------------

impl App {
    /// The composer is closed and emptied, and what was to be answered or edited with it is
    /// forgotten.
    pub open spec fn composer_done(self, new: App) -> bool {
        &&& new == (App {
            composer: new.composer,
            composer_cursor: 0,
            reply_to: None,
            editing: None,
            composer_open: false,
            ..self
        })
        &&& new.composer@.len() == 0
    }

    /// What is done with the composer's text: blank, it closes the composer; without a
    /// channel nothing comes of it; else it goes out as an edit or as a new message.
    pub open spec fn submits(self, new: App, work: Seq<WorkView>) -> bool {
        if text::is_blank(self.composer@) {
            new == (App { composer_open: false, ..self }) && work.len() == 0
        } else {
            match self.channel() {
                None => new == self && work.len() == 0,
                Some(c) => {
                    &&& self.composer_done(new)
                    &&& work == match self.editing {
                        Some(message) => seq![
                            WorkView::Edit {
                                id: message,
                                content: text::trimmed(self.composer@),
                            },
                        ],
                        None => seq![
                            WorkView::Send {
                                channel: c.id,
                                content: text::trimmed(self.composer@),
                                reply_to: self.reply_to,
                            },
                        ],
                    }
                },
            }
        }
    }

    pub fn submit_composer(&mut self) -> (r: Vec<Work>)
        requires
            old(self).wf(),
        ensures
            old(self).submits(*final(self), work_views(r@)),
            final(self).wf(),
    {
        if text::blank(self.composer.as_str()) {
            self.composer_open = false;
            return no_work();
        }
        let content = text::trim(self.composer.as_str());
        let channel = match self.selected_channel() {
            Some(c) => c.id,
            None => {
                return no_work();
            },
        };
        let work = match self.editing {
            Some(message) => one_work(Work::Edit { id: message, content }),
            None => one_work(Work::Send { channel, content, reply_to: self.reply_to }),
        };
        self.editing = None;
        self.composer = String::new();
        self.composer_cursor = 0;
        self.reply_to = None;
        self.composer_open = false;
        work
    }

    /// A message that was sent is the last one, and selected.
    pub open spec fn takes_sent(self, answer: Answer, new: App) -> bool {
        match answer {
            Answer::Message(m) => {
                &&& new == (App {
                    messages: new.messages,
                    msg_idx: new.msg_idx,
                    status: new.status,
                    ..self
                })
                &&& new.messages@ == self.messages@.push(m)
                &&& new.msg_idx == self.messages@.len()
                &&& new.status@.len() == 0
            },
            Answer::Failed(e) => new.says(self, "send: "@ + e@),
            _ => new == self,
        }
    }

    fn take_sent(&mut self, answer: Answer)
        requires
            old(self).wf(),
        ensures
            old(self).takes_sent(answer, *final(self)),
            final(self).wf(),
    {
        match answer {
            Answer::Message(m) => {
                self.messages.push(m);
                self.msg_idx = self.messages.len() - 1;
                self.status = String::new();
            },
            Answer::Failed(e) => {
                self.status = text::joined("send: ", e.as_str());
            },
            _ => {},
        }
    }

    /// A message that was edited takes the place of what it was.
    pub open spec fn takes_edited(self, message: Uuid, answer: Answer, new: App) -> bool {
        match answer {
            Answer::Message(m) => {
                &&& new == (App { messages: new.messages, status: new.status, ..self })
                &&& new.messages@ == with_message(self.messages@, message, m)
                &&& new.status@.len() == 0
            },
            Answer::Failed(e) => new.says(self, "edit: "@ + e@),
            _ => new == self,
        }
    }

    fn replace_message(&mut self, message: Uuid, m: Message)
        requires
            old(self).wf(),
        ensures
            *final(self) == (App { messages: final(self).messages, ..*old(self) }),
            final(self).messages@ == with_message(old(self).messages@, message, m),
            final(self).wf(),
    {
        if let Some(k) = position(&self.messages, message) {
            self.messages.set(k, m);
        }
    }

    fn take_edited(&mut self, message: Uuid, answer: Answer)
        requires
            old(self).wf(),
        ensures
            old(self).takes_edited(message, answer, *final(self)),
            final(self).wf(),
    {
        match answer {
            Answer::Message(m) => {
                self.replace_message(message, m);
                self.status = String::new();
            },
            Answer::Failed(e) => {
                self.status = text::joined("edit: ", e.as_str());
            },
            _ => {},
        }
    }

    /// The messages of an identifier are gone, and what is selected is still there.
    pub open spec fn drops(self, message: Uuid, new: App) -> bool {
        &&& new == (App { messages: new.messages, msg_idx: new.msg_idx, ..self })
        &&& new.messages@ == without_message(self.messages@, message)
        &&& new.msg_idx == clamped(self.msg_idx as int, new.messages@.len())
    }

    fn drop_message(&mut self, message: Uuid)
        requires
            old(self).wf(),
        ensures
            old(self).drops(message, *final(self)),
            final(self).wf(),
    {
        remove_message(&mut self.messages, message);
        self.msg_idx = clamp(self.msg_idx, self.messages.len());
    }

    pub open spec fn takes_deleted(self, message: Uuid, answer: Answer, new: App) -> bool {
        match answer {
            Answer::Done => self.drops(message, new),
            Answer::Failed(e) => new.says(self, "delete: "@ + e@),
            _ => new == self,
        }
    }

    fn take_deleted(&mut self, message: Uuid, answer: Answer)
        requires
            old(self).wf(),
        ensures
            old(self).takes_deleted(message, answer, *final(self)),
            final(self).wf(),
    {
        match answer {
            Answer::Done => self.drop_message(message),
            Answer::Failed(e) => {
                self.status = text::joined("delete: ", e.as_str());
            },
            _ => {},
        }
    }

    pub open spec fn takes_reaction(self, message: Uuid, answer: Answer, new: App) -> bool {
        match answer {
            Answer::Message(m) => {
                &&& new == (App { messages: new.messages, ..self })
                &&& new.messages@ == with_message(self.messages@, message, m)
            },
            Answer::Failed(e) => new.says(self, "react: "@ + e@),
            _ => new == self,
        }
    }

    fn take_reaction(&mut self, message: Uuid, answer: Answer)
        requires
            old(self).wf(),
        ensures
            old(self).takes_reaction(message, answer, *final(self)),
            final(self).wf(),
    {
        match answer {
            Answer::Message(m) => self.replace_message(message, m),
            Answer::Failed(e) => {
                self.status = text::joined("react: ", e.as_str());
            },
            _ => {},
        }
    }

    /// What was found takes the place of the messages, with the first one selected.
    pub open spec fn takes_search(self, answer: Answer, new: App) -> bool {
        match answer {
            Answer::Messages(found) => {
                &&& new == (App {
                    messages: found,
                    msg_idx: 0,
                    focus: Focus::Messages,
                    status: new.status,
                    ..self
                })
                &&& new.status@ == "search: "@ + text::decimal_text(found@.len()) + " hits"@
            },
            Answer::Failed(e) => new.says(self, "search: "@ + e@),
            _ => new == self,
        }
    }

    fn take_search(&mut self, answer: Answer)
        requires
            old(self).wf(),
        ensures
            old(self).takes_search(answer, *final(self)),
            final(self).wf(),
    {
        match answer {
            Answer::Messages(found) => {
                let number = text::decimal(found.len() as u64);
                let mut status = text::joined("search: ", number.as_str());
                status.append(" hits");
                self.messages = found;
                self.msg_idx = 0;
                self.focus = Focus::Messages;
                self.status = status;
            },
            Answer::Failed(e) => {
                self.status = text::joined("search: ", e.as_str());
            },
            _ => {},
        }
    }

    /// Whatever the server said, the session is over here: the stored token goes, and the
    /// program ends.
    pub open spec fn takes_logout(self, answer: Answer, new: App, work: Seq<WorkView>) -> bool {
        &&& new == (App { status: new.status, exit_message: new.exit_message, ..self })
        &&& new.exit_message matches Some(m)
        &&& m@ == "Logged out of tuimessager."@
        &&& match answer {
            Answer::Failed(e) => new.status@ == "logout: "@ + e@
                + " (clearing local token anyway)"@,
            _ => new.status == self.status,
        }
        &&& work == seq![WorkView::ClearToken, WorkView::Quit]
    }

    fn take_logout(&mut self, answer: Answer) -> (r: Vec<Work>)
        requires
            old(self).wf(),
        ensures
            old(self).takes_logout(answer, *final(self), work_views(r@)),
            final(self).wf(),
    {
        match answer {
            Answer::Failed(e) => {
                let mut status = text::joined("logout: ", e.as_str());
                status.append(" (clearing local token anyway)");
                self.status = status;
            },
            _ => {},
        }
        self.exit_message = Some("Logged out of tuimessager.".to_owned());
        let r: Vec<Work> = vec![Work::ClearToken, Work::Quit];
        assert(work_views(r@) =~= seq![WorkView::ClearToken, WorkView::Quit]);
        r
    }

    /// What the answer to some work changes, and what is to be done then.
    pub open spec fn takes(
        self,
        work: Work,
        answer: Answer,
        new: App,
        more: Seq<WorkView>,
    ) -> bool {
        match work {
            Work::FetchServers => self.takes_servers(answer, new) && more.len() == 0,
            Work::FetchChannels(_) => self.takes_channels(answer, new, more),
            Work::FetchMembers(_) => self.takes_members(answer, new) && more.len() == 0,
            Work::FetchHistory { channel, before } => self.takes_history(before, answer, new)
                && more.len() == 0,
            Work::FetchNotifications => self.takes_notifications(answer, new, more),
            Work::Send { .. } => self.takes_sent(answer, new) && more.len() == 0,
            Work::Edit { id, content } => self.takes_edited(id, answer, new) && more.len() == 0,
            Work::Delete(message) => self.takes_deleted(message, answer, new) && more.len() == 0,
            Work::React { id, emoji } => self.takes_reaction(id, answer, new) && more.len() == 0,
            Work::Search { .. } => self.takes_search(answer, new) && more.len() == 0,
            Work::Logout => self.takes_logout(answer, new, more),
            _ => new == self && more.len() == 0,
        }
    }

    /// Takes the answer to some work.
    pub fn take(&mut self, work: &Work, answer: Answer) -> (r: Vec<Work>)
        requires
            old(self).wf(),
        ensures
            old(self).takes(*work, answer, *final(self), work_views(r@)),
            final(self).wf(),
    {
        match work {
            Work::FetchServers => self.take_servers(answer),
            Work::FetchChannels(_) => {
                return self.take_channels(answer);
            },
            Work::FetchMembers(_) => self.take_members(answer),
            Work::FetchHistory { channel: _, before } => self.take_history(*before, answer),
            Work::FetchNotifications => {
                return self.take_notifications(answer);
            },
            Work::Send { .. } => self.take_sent(answer),
            Work::Edit { id, content: _ } => self.take_edited(*id, answer),
            Work::Delete(message) => self.take_deleted(*message, answer),
            Work::React { id, emoji: _ } => self.take_reaction(*id, answer),
            Work::Search { .. } => self.take_search(answer),
            Work::Logout => {
                return self.take_logout(answer);
            },
            _ => {},
        }
        no_work()
    }
}

// ---------------------------------------------------------------------------
// Requests
// ---------------------------------------------------------------------------

/// The request to the server that some work stands for, of the session of `c`.
pub open spec fn is_request(c: Client, work: Work, r: HttpRequest) -> bool {
    match work {
        Work::FetchServers => r.asks(c, Method::Get, "/api/v1/servers"@),
        Work::FetchChannels(s) => r.asks(
            c,
            Method::Get,
            client::path_of("/api/v1/servers/"@, s, "/channels"@),
        ),
        Work::FetchMembers(s) => r.asks(
            c,
            Method::Get,
            client::path_of("/api/v1/servers/"@, s, "/members"@),
        ),
        Work::FetchHistory { channel, before } => r.asks(
            c,
            Method::Get,
            client::history_path(channel, before, 50),
        ),
        Work::FetchNotifications => r.asks(c, Method::Get, "/api/v1/notifications"@),
        Work::Send { channel, content, reply_to } => {
            &&& r.goes_to(
                c,
                Method::Post,
                client::path_of("/api/v1/channels/"@, channel, "/messages"@),
            )
            &&& r.payload matches Payload::Send(req)
            &&& req.content == content
            &&& req.reply_to == reply_to
            &&& req.nonce matches Some(nonce)
            &&& id::is_random(nonce.0)
        },
        Work::Edit { id, content } => {
            &&& r.goes_to(c, Method::Patch, client::path_of("/api/v1/messages/"@, id, ""@))
            &&& r.payload matches Payload::Edit(req)
            &&& req.content == content
        },
        Work::Delete(message) => r.asks(
            c,
            Method::Delete,
            client::path_of("/api/v1/messages/"@, message, ""@),
        ),
        Work::React { id, emoji } => r.asks(
            c,
            Method::Post,
            client::path_of("/api/v1/messages/"@, id, "/reactions/"@) + emoji@,
        ),
        Work::Search { query, channel } => r.asks(
            c,
            Method::Get,
            client::search_path(query@, channel),
        ),
        Work::Logout => r.asks(c, Method::Post, "/api/v1/logout"@),
        _ => false,
    }
}

impl Work {
    /// The work is a request to the server.
    pub open spec fn is_remote(self) -> bool {
        !(self is MoveDown || self is MoveUp || self is Toast || self is OpenUrl
            || self is Copy || self is ClearToken || self is Quit)
    }
}

impl App {
    /// The request that some work stands for, where it stands for one.
    pub fn request(&self, work: &Work) -> (r: Option<HttpRequest>)
        ensures
            match r {
                Some(req) => is_request(self.client, *work, req),
                None => !work.is_remote(),
            },
            r is Some <==> work.is_remote(),
    {
        let c = &self.client;
        match work {
            Work::FetchServers => Some(c.servers()),
            Work::FetchChannels(s) => Some(c.channels(*s)),
            Work::FetchMembers(s) => Some(c.members(*s)),
            Work::FetchHistory { channel, before } => Some(c.history(*channel, *before, 50)),
            Work::FetchNotifications => Some(c.notifications()),
            Work::Send { channel, content, reply_to } => Some(
                c.send(*channel, content.clone(), *reply_to),
            ),
            Work::Edit { id, content } => Some(c.edit(*id, content.clone())),
            Work::Delete(message) => Some(c.delete(*message)),
            Work::React { id, emoji } => Some(c.react(*id, emoji.as_str())),
            Work::Search { query, channel } => Some(c.search(query.as_str(), *channel)),
            Work::Logout => Some(c.logout()),
            _ => None,
        }
    }
}

// ---------------------------------------------------------------------------
// Live events
// ---------------------------------------------------------------------------

/// The messages with other reactions on the first one of an identifier.
pub open spec fn with_reactions(
    messages: Seq<Message>,
    message: Uuid,
    reactions: Vec<ReactionCount>,
) -> Seq<Message> {
    match place_of(messages, message, 0) {
        Some(k) => messages.update(k, Message { reactions, ..messages[k] }),
        None => messages,
    }
}

impl App {
    /// What a live event changes.
    pub open spec fn applies(self, ev: WsEvent, new: App) -> bool {
        match ev {
            WsEvent::MessageCreated { message } => if self.channel() matches Some(c) && c.id
                == message.channel_id {
                &&& new == (App { messages: new.messages, msg_idx: new.msg_idx, ..self })
                &&& new.messages@ == self.messages@.push(message)
                &&& new.msg_idx == if self.focus == Focus::Messages {
                    self.messages@.len() as int
                } else {
                    self.msg_idx as int
                }
            } else {
                new.says(self, "new message in "@ + id::hyphenated_text(message.channel_id.0))
            },
            WsEvent::MessageEdited { message } => {
                &&& new == (App { messages: new.messages, ..self })
                &&& new.messages@ == with_message(self.messages@, message.id, message)
            },
            WsEvent::MessageDeleted { channel_id, id } => self.drops(id, new),
            WsEvent::ReactionUpdated { channel_id, message_id, reactions } => {
                &&& new == (App { messages: new.messages, ..self })
                &&& new.messages@ == with_reactions(self.messages@, message_id, reactions)
            },
            WsEvent::ChannelCreated { channel } => new.says(
                self,
                "new channel: #"@ + channel.name@,
            ),
            WsEvent::NotificationCreated { notification } => {
                &&& new == (App { notifications: new.notifications, ..self })
                &&& new.notifications@ == seq![notification] + self.notifications@
            },
            _ => new == self,
        }
    }

    pub fn apply_event(&mut self, ev: WsEvent)
        requires
            old(self).wf(),
        ensures
            old(self).applies(ev, *final(self)),
            final(self).wf(),
    {
        match ev {
            WsEvent::MessageCreated { message } => {
                let here: bool = match self.selected_channel() {
                    Some(c) => c.id == message.channel_id,
                    None => false,
                };
                if here {
                    self.messages.push(message);
                    if self.focus == Focus::Messages {
                        self.msg_idx = self.messages.len() - 1;
                    }
                } else {
                    let channel = message.channel_id.text();
                    self.status = text::joined("new message in ", channel.as_str());
                }
            },
            WsEvent::MessageEdited { message } => self.replace_message(message.id, message),
            WsEvent::MessageDeleted { channel_id: _, id } => self.drop_message(id),
            WsEvent::ReactionUpdated { channel_id: _, message_id, reactions } => {
                if let Some(k) = position(&self.messages, message_id) {
                    let m = self.messages.remove(k);
                    self.messages.insert(k, Message { reactions, ..m });
                    assert(self.messages@ =~= with_reactions(
                        old(self).messages@,
                        message_id,
                        reactions,
                    ));
                }
            },
            WsEvent::ChannelCreated { channel } => {
                self.status = text::joined("new channel: #", channel.name.as_str());
            },
            WsEvent::NotificationCreated { notification } => {
                self.notifications.insert(0, notification);
                assert(self.notifications@ =~= seq![notification] + old(self).notifications@);
            },
            _ => {},
        }
    }
}

// ---------------------------------------------------------------------------
// The channel switcher
// ---------------------------------------------------------------------------

/// What the switcher compares a channel with: its name, and the server's before it where
/// the query starts with a star.
pub open spec fn switcher_label(
    starred: bool,
    server: Option<Server>,
    channel: Channel,
) -> Seq<char> {
    if starred {
        (match server {
            Some(s) => s.name@,
            None => ""@,
        }) + " #"@ + channel.name@
    } else {
        "#"@ + channel.name@
    }
}

/// The part of the switcher's input that is looked for.
pub open spec fn switcher_query(input: Seq<char>) -> Seq<char> {
    text::trimmed(text::without_leading(text::trimmed(input), '*'))
}

pub open spec fn is_starred(input: Seq<char>) -> bool {
    text::trimmed(input).len() > 0 && text::trimmed(input)[0] == '*'
}

/// The score of a query against a target.
pub open spec fn score_of(query: Seq<char>, target: Seq<char>) -> Option<i64> {
    if query.len() == 0 {
        Some(0i64)
    } else {
        markdown::fuzzy_rank(text::lowercased(query), text::lowercased(target))
    }
}

/// The channels that match, each with its score, in the order in which they stand.
pub open spec fn scored(
    query: Seq<char>,
    starred: bool,
    server: Option<Server>,
    channels: Seq<Channel>,
) -> Seq<(i64, usize)>
    decreases channels.len(),
{
    if channels.len() == 0 {
        Seq::empty()
    } else {
        let before = scored(query, starred, server, channels.drop_last());
        match score_of(query, switcher_label(starred, server, channels.last())) {
            Some(s) => before.push((s, (channels.len() - 1) as usize)),
            None => before,
        }
    }
}

/// The higher score comes first, and of equal ones the one that stood first.
pub open spec fn ranks(a: (i64, usize), b: (i64, usize)) -> bool {
    a.0 > b.0 || (a.0 == b.0 && a.1 <= b.1)
}

/// The best of some scores, 20 at most, the best first.
pub open spec fn best(s: Seq<(i64, usize)>) -> Seq<(i64, usize)> {
    let all = s.sort_by(|a: (i64, usize), b: (i64, usize)| ranks(a, b));
    if all.len() > 20 {
        all.take(20)
    } else {
        all
    }
}

/// Puts a score where it belongs.
fn insert_ranked(out: &mut Vec<(i64, usize)>, x: (i64, usize))
    requires
        vstd::relations::sorted_by(
            old(out)@,
            |a: (i64, usize), b: (i64, usize)| ranks(a, b),
        ),
    ensures
        vstd::relations::sorted_by(
            final(out)@,
            |a: (i64, usize), b: (i64, usize)| ranks(a, b),
        ),
        final(out)@.to_multiset() == old(out)@.to_multiset().insert(x),
{
    let ghost leq = |a: (i64, usize), b: (i64, usize)| ranks(a, b);
    let mut k: usize = 0;
    while k < out.len() && (out[k].0 > x.0 || (out[k].0 == x.0 && out[k].1 <= x.1))
        invariant
            out@ == old(out)@,
            k <= out@.len(),
            forall|i: int| 0 <= i < k ==> ranks(#[trigger] out@[i], x),
        decreases out@.len() - k,
    {
        k += 1;
    }
    let ghost before = out@;
    out.insert(k, x);
    proof {
        out@.to_multiset_ensures();
        assert(out@.remove(k as int) =~= before);
        assert(out@[k as int] == x);
        assert(out@.contains(x));
        assert(out@.to_multiset() =~= before.to_multiset().insert(x));
        assert forall|i: int, j: int| 0 <= i < j < out@.len() implies #[trigger] leq(
            out@[i],
            out@[j],
        ) by {
            let bi = if i < k {
                i
            } else {
                i - 1
            };
            let bj = if j < k {
                j
            } else {
                j - 1
            };
            if i != k && j != k {
                assert(leq(before[bi], before[bj]));
            } else if i == k {
                assert(!ranks(before[k as int], x));
                if bj > k {
                    assert(leq(before[k as int], before[bj]));
                }
            }
        }
    }
}

/// The best of some scores, 20 at most, the best first.
pub fn rank_items(items: &Vec<(i64, usize)>) -> (r: Vec<(i64, usize)>)
    ensures
        r@ == best(items@),
{
    let ghost leq = |a: (i64, usize), b: (i64, usize)| ranks(a, b);
    let mut out: Vec<(i64, usize)> = Vec::new();
    let mut i: usize = 0;
    assert(items@.take(0).to_multiset() =~= out@.to_multiset()) by {
        assert(items@.take(0) =~= out@);
    }
    while i < items.len()
        invariant
            i <= items@.len(),
            leq == (|a: (i64, usize), b: (i64, usize)| ranks(a, b)),
            vstd::relations::sorted_by(out@, leq),
            out@.to_multiset() == items@.take(i as int).to_multiset(),
        decreases items@.len() - i,
    {
        insert_ranked(&mut out, items[i]);
        proof {
            assert(items@.take(i + 1) =~= items@.take(i as int).push(items@[i as int]));
            items@.take(i as int).to_multiset_ensures();
        }
        i += 1;
    }
    proof {
        assert(items@.take(i as int) =~= items@);
        assert(vstd::relations::total_ordering(leq));
        items@.lemma_sort_by_ensures(leq);
        vstd::seq_lib::lemma_sorted_unique(out@, items@.sort_by(leq), leq);
    }
    out.truncate(20);
    out
}

impl App {
    /// What the switcher offers: the channels that match its input, the best first.
    pub open spec fn switcher(self) -> Seq<(i64, usize)> {
        best(
            scored(
                switcher_query(self.popup_input@),
                is_starred(self.popup_input@),
                self.server(),
                self.channels@,
            ),
        )
    }

    pub fn switcher_items(&self) -> (r: Vec<(i64, usize)>)
        ensures
            r@ == self.switcher(),
    {
        let q = text::trim(self.popup_input.as_str());
        let starred: bool = text::starts_with(q.as_str(), "*");
        proof {
            reveal_strlit("*");
            assert(text::begins_with(q@, "*"@) == (q@.len() > 0 && q@[0] == '*')) by {
                if q@.len() > 0 {
                    assert(q@.take(1)[0] == q@[0]);
                    if q@[0] == '*' {
                        assert(q@.take(1) =~= "*"@);
                    }
                }
            }
        }
        let unstarred = text::trim_start_char(q.as_str(), '*');
        let query = text::trim(unstarred.as_str());
        let server_name = match self.selected_server() {
            Some(s) => s.name.as_str(),
            None => "",
        };
        let ghost want = scored(query@, starred, self.server(), self.channels@);
        let mut items: Vec<(i64, usize)> = Vec::new();
        let mut i: usize = 0;
        assert(self.channels@.take(0) =~= Seq::empty());
        while i < self.channels.len()
            invariant
                i <= self.channels@.len(),
                server_name@ == (match self.server() {
                    Some(s) => s.name@,
                    None => ""@,
                }),
                items@ == scored(
                    query@,
                    starred,
                    self.server(),
                    self.channels@.take(i as int),
                ),
            decreases self.channels@.len() - i,
        {
            let c = &self.channels[i];
            let label = if starred {
                let mut label = text::joined(server_name, " #");
                label.append(c.name.as_str());
                label
            } else {
                text::joined("#", c.name.as_str())
            };
            proof {
                let upto = self.channels@.take(i + 1);
                assert(upto.drop_last() =~= self.channels@.take(i as int));
                assert(upto.last() == self.channels@[i as int]);
            }
            if let Some(s) = markdown::fuzzy_score(query.as_str(), label.as_str()) {
                items.push((s, i));
            }
            i += 1;
        }
        assert(self.channels@.take(i as int) =~= self.channels@);
        rank_items(&items)
    }

    /// The time of day of a point in time, as the options want it shown.
    pub fn format_time(&self, at: &Timestamp) -> (r: String)
        ensures
            time::is_time_of_day(r@, self.options.display.hour_format_24),
    {
        at.time_of_day(self.options.display.hour_format_24)
    }
}

proof fn lemma_best(s: Seq<(i64, usize)>)
    ensures
        best(s).len() <= 20,
        vstd::relations::sorted_by(best(s), |a: (i64, usize), b: (i64, usize)| ranks(a, b)),
        forall|k: int| 0 <= k < best(s).len() ==> s.contains(#[trigger] best(s)[k]),
{
    let leq = |a: (i64, usize), b: (i64, usize)| ranks(a, b);
    assert(vstd::relations::total_ordering(leq));
    s.lemma_sort_by_ensures(leq);
    let all = s.sort_by(leq);
    assert forall|k: int| 0 <= k < best(s).len() implies s.contains(#[trigger] best(s)[k]) by {
        assert(all.contains(all[k]));
    }
    assert forall|i: int, j: int| 0 <= i < j < best(s).len() implies #[trigger] leq(
        best(s)[i],
        best(s)[j],
    ) by {
        assert(leq(all[i], all[j]));
    }
}

proof fn lemma_scored(
    query: Seq<char>,
    starred: bool,
    server: Option<Server>,
    channels: Seq<Channel>,
)
    requires
        channels.len() <= usize::MAX,
    ensures
        forall|x: (i64, usize)| #[trigger]
            scored(query, starred, server, channels).contains(x) ==> x.1 < channels.len()
                && score_of(query, switcher_label(starred, server, channels[x.1 as int])) == Some(
                x.0,
            ),
        forall|i: int|
            0 <= i < channels.len() ==> match score_of(
                query,
                switcher_label(starred, server, #[trigger] channels[i]),
            ) {
                Some(s) => scored(query, starred, server, channels).contains((s, i as usize)),
                None => true,
            },
    decreases channels.len(),
{
    if channels.len() > 0 {
        let less = channels.drop_last();
        let before = scored(query, starred, server, less);
        let all = scored(query, starred, server, channels);
        lemma_scored(query, starred, server, less);
        assert forall|x: (i64, usize)| #[trigger] all.contains(x) implies x.1 < channels.len()
            && score_of(query, switcher_label(starred, server, channels[x.1 as int])) == Some(
            x.0,
        ) by {
            if before.contains(x) {
                assert(less[x.1 as int] == channels[x.1 as int]);
            }
        }
        assert forall|i: int| 0 <= i < channels.len() implies match score_of(
            query,
            switcher_label(starred, server, #[trigger] channels[i]),
        ) {
            Some(s) => all.contains((s, i as usize)),
            None => true,
        } by {
            if i < less.len() {
                assert(less[i] == channels[i]);
                match score_of(query, switcher_label(starred, server, channels[i])) {
                    Some(s) => {
                        let at = before.index_of((s, i as usize));
                        assert(all[at] == before[at]);
                    },
                    None => {},
                }
            } else {
                match score_of(query, switcher_label(starred, server, channels[i])) {
                    Some(s) => {
                        assert(all.last() == (s, i as usize));
                    },
                    None => {},
                }
            }
        }
    }
}

/// The switcher offers at most 20 channels, the best first. Each is there, and has the score
/// that it is offered with.
pub proof fn law_switcher_offers_the_best(app: App)
    requires
        app.fits(),
    ensures
        app.switcher().len() <= 20,
        vstd::relations::sorted_by(
            app.switcher(),
            |a: (i64, usize), b: (i64, usize)| ranks(a, b),
        ),
        forall|k: int|
            0 <= k < app.switcher().len() ==> (#[trigger] app.switcher()[k]).1
                < app.channels@.len() && score_of(
                switcher_query(app.popup_input@),
                switcher_label(
                    is_starred(app.popup_input@),
                    app.server(),
                    app.channels@[app.switcher()[k].1 as int],
                ),
            ) == Some(app.switcher()[k].0),
{
    let query = switcher_query(app.popup_input@);
    let starred = is_starred(app.popup_input@);
    lemma_best(scored(query, starred, app.server(), app.channels@));
    lemma_scored(query, starred, app.server(), app.channels@);
}

/// Where no more than 20 channels match, the switcher leaves none of them out.
pub proof fn law_switcher_leaves_none_out(app: App, i: int, s: i64)
    requires
        app.fits(),
        0 <= i < app.channels@.len(),
        score_of(
            switcher_query(app.popup_input@),
            switcher_label(is_starred(app.popup_input@), app.server(), app.channels@[i]),
        ) == Some(s),
        scored(
            switcher_query(app.popup_input@),
            is_starred(app.popup_input@),
            app.server(),
            app.channels@,
        ).len() <= 20,
    ensures
        app.switcher().contains((s, i as usize)),
{
    let query = switcher_query(app.popup_input@);
    let starred = is_starred(app.popup_input@);
    let all = scored(query, starred, app.server(), app.channels@);
    let leq = |a: (i64, usize), b: (i64, usize)| ranks(a, b);
    lemma_scored(query, starred, app.server(), app.channels@);
    assert(vstd::relations::total_ordering(leq));
    all.lemma_sort_by_ensures(leq);
    all.to_multiset_ensures();
    all.sort_by(leq).to_multiset_ensures();
    assert(all.contains((s, i as usize)));
    assert(all.sort_by(leq).to_multiset().count((s, i as usize)) > 0);
}

/// A channel that matches is offered, unless twenty others are that score higher, or as high
/// and stand before it. Of two that are offered the one with the higher score comes first,
/// and of two with the same score the one that stands first among the channels.
pub proof fn law_switcher_offers_in_order(app: App, i: int, s: i64)
    requires
        app.fits(),
        0 <= i < app.channels@.len(),
        score_of(
            switcher_query(app.popup_input@),
            switcher_label(is_starred(app.popup_input@), app.server(), app.channels@[i]),
        ) == Some(s),
    ensures
        app.switcher().contains((s, i as usize)) || (app.switcher().len() == 20 && forall|k: int|
            0 <= k < 20 ==> (#[trigger] app.switcher()[k]).0 > s || (app.switcher()[k].0 == s
                && app.switcher()[k].1 <= i)),
        forall|j: int, k: int|
            0 <= j < k < app.switcher().len() ==> (#[trigger] app.switcher()[j]).0 > (
            #[trigger] app.switcher()[k]).0 || (app.switcher()[j].0 == app.switcher()[k].0
                && app.switcher()[j].1 <= app.switcher()[k].1),
{
    let query = switcher_query(app.popup_input@);
    let starred = is_starred(app.popup_input@);
    let all = scored(query, starred, app.server(), app.channels@);
    let leq = |a: (i64, usize), b: (i64, usize)| ranks(a, b);
    lemma_scored(query, starred, app.server(), app.channels@);
    assert(vstd::relations::total_ordering(leq));
    all.lemma_sort_by_ensures(leq);
    all.to_multiset_ensures();
    let sorted = all.sort_by(leq);
    sorted.to_multiset_ensures();
    let x = (s, i as usize);
    assert(all.contains(x));
    assert(sorted.to_multiset().count(x) > 0);
    assert(sorted.contains(x));
    let at = choose|at: int| 0 <= at < sorted.len() && sorted[at] == x;
    if at < app.switcher().len() {
        assert(app.switcher()[at] == x);
    } else {
        assert forall|k: int| 0 <= k < 20 implies (#[trigger] app.switcher()[k]).0 > s || (
        app.switcher()[k].0 == s && app.switcher()[k].1 <= i) by {
            assert(leq(sorted[k], sorted[at]));
        }
    }
    assert forall|j: int, k: int| 0 <= j < k < app.switcher().len() implies (
    #[trigger] app.switcher()[j]).0 > (#[trigger] app.switcher()[k]).0 || (app.switcher()[j].0
        == app.switcher()[k].0 && app.switcher()[j].1 <= app.switcher()[k].1) by {
        assert(leq(sorted[j], sorted[k]));
    }
}

/// A message that was deleted is gone, and all others are still there, in their order. To
/// hear of the deletion again changes nothing.
pub proof fn law_deleted_messages_are_gone(app: App, message: Uuid, once: App, twice: App)
    requires
        app.wf(),
        app.drops(message, once),
        once.drops(message, twice),
    ensures
        once.messages@ == app.messages@.filter(|m: Message| m.id != message),
        forall|i: int| 0 <= i < once.messages@.len() ==> (#[trigger] once.messages@[i]).id
            != message,
        forall|m: Message|
            m.id != message ==> (app.messages@.contains(m) <==> #[trigger] once.messages@.contains(
                m,
            )),
        twice.messages@ == once.messages@,
        twice.msg_idx == once.msg_idx,
{
    let keep = |m: Message| m.id != message;
    broadcast use vstd::seq_lib::group_filter_ensures;

    assert forall|i: int| 0 <= i < once.messages@.len() implies (#[trigger] once.messages@[i]).id
        != message by {
        assert(keep(app.messages@.filter(keep)[i]));
    }
    assert forall|m: Message| m.id != message implies (app.messages@.contains(m)
        <==> #[trigger] once.messages@.contains(m)) by {
        if once.messages@.contains(m) {
            app.messages@.lemma_filter_contains_rev(keep, m);
        }
        if app.messages@.contains(m) {
            let i = app.messages@.index_of(m);
            assert(keep(app.messages@[i]));
        }
    }
    lemma_filter_all(once.messages@, keep);
}

proof fn lemma_filter_all(s: Seq<Message>, keep: spec_fn(Message) -> bool)
    requires
        forall|i: int| 0 <= i < s.len() ==> keep(#[trigger] s[i]),
    ensures
        s.filter(keep) == s,
    decreases s.len(),
{
    reveal(Seq::filter);
    if s.len() > 0 {
        lemma_filter_all(s.drop_last(), keep);
        assert(s.drop_last().push(s.last()) =~= s);
    } else {
        assert(s.filter(keep) =~= s);
    }
}

} // verus!

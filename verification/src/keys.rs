//! What each key does, in the composer, in a popup, behind the leader key and in the panes.

use crate::app;
use crate::app::{no_work, one_work, App, Focus, Popup, Work, WorkView};
use crate::text;
use vstd::prelude::*;

verus! {

#[derive(Debug, Clone, Copy, PartialEq, Eq, Structural)]
pub enum Key {
    Char(char),
    F(u8),
    Enter,
    Esc,
    Backspace,
    Tab,
    BackTab,
    Up,
    Down,
    Other,
}

/// The keys held down with another one.
#[derive(Debug, Clone, Copy, PartialEq, Eq, Structural)]
pub struct Modifiers {
    pub shift: bool,
    pub control: bool,
    /// Any other one.
    pub other: bool,
}

/// The leader key by its name in lower case. What names no key stands for the space bar.
pub open spec fn leader_named(name: Seq<char>) -> Key {
    if name == "space"@ {
        Key::Char(' ')
    } else if name == "tab"@ {
        Key::Tab
    } else if name == "enter"@ {
        Key::Enter
    } else if name.len() == 1 {
        Key::Char(name[0])
    } else {
        Key::Char(' ')
    }
}

pub fn leader_key(name: &str) -> (r: Key)
    ensures
        r == leader_named(name@),
{
    if text::same_text(name, "space") {
        return Key::Char(' ');
    }
    if text::same_text(name, "tab") {
        return Key::Tab;
    }
    if text::same_text(name, "enter") {
        return Key::Enter;
    }
    let chars = text::chars_of(name);
    if chars.len() == 1 {
        Key::Char(chars[0])
    } else {
        Key::Char(' ')
    }
}

/// The leader key that an entry of the key map names.
pub open spec fn leader_in(entry: Seq<char>) -> Key {
    leader_named(text::lowercased(text::trimmed(entry)))
}

/// The leader key that the key map names.
pub fn parse_leader(s: &str) -> (r: Key)
    ensures
        r == leader_named(text::lowercased(text::trimmed(s@))),
        r == leader_in(s@),
{
    let trimmed = text::trim(s);
    let lowered = text::lowercase(trimmed.as_str());
    leader_key(lowered.as_str())
}

/// The emojis that the picker offers.
pub open spec fn emoji_at(i: int) -> Option<Seq<char>> {
    if i == 0 {
        Some("🔥"@)
    } else if i == 1 {
        Some("👍"@)
    } else if i == 2 {
        Some("❤️"@)
    } else if i == 3 {
        Some("😂"@)
    } else if i == 4 {
        Some("🎉"@)
    } else if i == 5 {
        Some("😮"@)
    } else if i == 6 {
        Some("😢"@)
    } else if i == 7 {
        Some("🙏"@)
    } else if i == 8 {
        Some("👀"@)
    } else if i == 9 {
        Some("💯"@)
    } else {
        None
    }
}

pub fn emoji(i: usize) -> (r: Option<&'static str>)
    ensures
        match r {
            Some(e) => emoji_at(i as int) == Some(e@),
            None => emoji_at(i as int) is None,
        },
        r is Some <==> i < 10,
{
    match i {
        0 => Some("🔥"),
        1 => Some("👍"),
        2 => Some("❤️"),
        3 => Some("😂"),
        4 => Some("🎉"),
        5 => Some("😮"),
        6 => Some("😢"),
        7 => Some("🙏"),
        8 => Some("👀"),
        9 => Some("💯"),
        _ => None,
    }
}

/// The first word from `i` on that is an address.
pub open spec fn first_url(s: Seq<char>, i: int) -> Option<Seq<char>>
    decreases s.len() - i,
{
    if i < 0 || i >= s.len() {
        None
    } else if text::is_white_space(s[i]) {
        first_url(s, i + 1)
    } else {
        proof {
            text::lemma_next_space(s, i);
        }
        let end = text::next_space(s, i);
        let word = s.subrange(i, end);
        if text::begins_with(word, "http://"@) || text::begins_with(word, "https://"@) {
            Some(word)
        } else if end <= i {
            None
        } else {
            first_url(s, end)
        }
    }
}

/// The first word of a message that is an address to open.
pub fn open_url_in_message(content: &str) -> (r: Option<String>)
    ensures
        match r {
            Some(u) => first_url(content@, 0) == Some(u@),
            None => first_url(content@, 0) is None,
        },
{
    let v = text::chars_of(content);
    let mut i: usize = 0;
    while i < v.len()
        invariant
            i <= v@.len(),
            v@ == content@,
            first_url(content@, 0) == first_url(content@, i as int),
        decreases v@.len() - i,
    {
        if text::white_space(v[i]) {
            i += 1;
        } else {
            let end = text::space_after(&v, i);
            proof {
                text::lemma_next_space(v@, i as int);
            }
            let word = text::text_of(&v, i, end);
            if text::starts_with(word.as_str(), "http://") || text::starts_with(
                word.as_str(),
                "https://",
            ) {
                return Some(word);
            }
            i = end;
        }
    }
    None
}

// ---------------------------------------------------------------------------
// Moving
// ---------------------------------------------------------------------------

impl App {
    /// One step down in the pane that has the keys, down to the last thing in it. Another
    /// server or channel is loaded.
    pub open spec fn moves_down(self, new: App, work: Seq<WorkView>) -> bool {
        match self.focus {
            Focus::Servers => if self.server_idx + 1 < self.servers@.len() {
                &&& new == (App { server_idx: (self.server_idx + 1) as usize, ..self })
                &&& work == new.asks_channels()
            } else {
                new == self && work.len() == 0
            },
            Focus::Channels => if self.channel_idx + 1 < self.channels@.len() {
                &&& new == (App { channel_idx: (self.channel_idx + 1) as usize, ..self })
                &&& work == new.asks_history(None)
            } else {
                new == self && work.len() == 0
            },
            Focus::Messages => {
                &&& new == (App {
                    msg_idx: if self.msg_idx + 1 < self.messages@.len() {
                        (self.msg_idx + 1) as usize
                    } else {
                        self.msg_idx
                    },
                    ..self
                })
                &&& work.len() == 0
            },
            Focus::Members => {
                &&& new == (App {
                    member_idx: app::clamped(
                        self.member_idx + 1,
                        self.members@.len(),
                    ) as usize,
                    ..self
                })
                &&& work.len() == 0
            },
        }
    }

    pub fn move_down(&mut self) -> (r: Vec<Work>)
        requires
            old(self).wf(),
        ensures
            old(self).moves_down(*final(self), app::work_views(r@)),
            final(self).wf(),
    {
        match self.focus {
            Focus::Servers => {
                let n: usize = self.servers.len();
                if self.server_idx + 1 < n {
                    self.server_idx = self.server_idx + 1;
                    return self.refresh_channels();
                }
            },
            Focus::Channels => {
                let n: usize = self.channels.len();
                if self.channel_idx + 1 < n {
                    self.channel_idx = self.channel_idx + 1;
                    return self.refresh_history(None);
                }
            },
            Focus::Messages => {
                let n: usize = self.messages.len();
                if self.msg_idx + 1 < n {
                    self.msg_idx = self.msg_idx + 1;
                }
            },
            Focus::Members => {
                self.member_idx = app::clamp(self.member_idx + 1, self.members.len());
            },
        }
        no_work()
    }

    /// One step up in the pane that has the keys, up to the first thing in it. The server or
    /// channel is loaded.
    pub open spec fn moves_up(self, new: App, work: Seq<WorkView>) -> bool {
        match self.focus {
            Focus::Servers => {
                &&& new == (App { server_idx: one_less(self.server_idx), ..self })
                &&& work == new.asks_channels()
            },
            Focus::Channels => {
                &&& new == (App { channel_idx: one_less(self.channel_idx), ..self })
                &&& work == new.asks_history(None)
            },
            Focus::Messages => {
                &&& new == (App { msg_idx: one_less(self.msg_idx), ..self })
                &&& work.len() == 0
            },
            Focus::Members => {
                &&& new == (App { member_idx: one_less(self.member_idx), ..self })
                &&& work.len() == 0
            },
        }
    }

    pub fn move_up(&mut self) -> (r: Vec<Work>)
        requires
            old(self).wf(),
        ensures
            old(self).moves_up(*final(self), app::work_views(r@)),
            final(self).wf(),
    {
        match self.focus {
            Focus::Servers => {
                self.server_idx = decrement(self.server_idx);
                self.refresh_channels()
            },
            Focus::Channels => {
                self.channel_idx = decrement(self.channel_idx);
                self.refresh_history(None)
            },
            Focus::Messages => {
                self.msg_idx = decrement(self.msg_idx);
                no_work()
            },
            Focus::Members => {
                self.member_idx = decrement(self.member_idx);
                no_work()
            },
        }
    }

    /// To the first thing in the pane that has the keys, or to the last.
    pub open spec fn jumps(self, bottom: bool, new: App, work: Seq<WorkView>) -> bool {
        match self.focus {
            Focus::Servers => {
                &&& new == (App { server_idx: end_place(bottom, self.servers@.len()), ..self })
                &&& work == new.asks_channels()
            },
            Focus::Channels => {
                &&& new == (App { channel_idx: end_place(bottom, self.channels@.len()), ..self })
                &&& work == new.asks_history(None)
            },
            Focus::Messages => {
                &&& new == (App { msg_idx: end_place(bottom, self.messages@.len()), ..self })
                &&& work.len() == 0
            },
            Focus::Members => {
                &&& new == (App { member_idx: end_place(bottom, self.members@.len()), ..self })
                &&& work.len() == 0
            },
        }
    }

    pub fn jump_top(&mut self) -> (r: Vec<Work>)
        requires
            old(self).wf(),
        ensures
            old(self).jumps(false, *final(self), app::work_views(r@)),
            final(self).wf(),
    {
        match self.focus {
            Focus::Servers => {
                self.server_idx = 0;
                self.refresh_channels()
            },
            Focus::Channels => {
                self.channel_idx = 0;
                self.refresh_history(None)
            },
            Focus::Messages => {
                self.msg_idx = 0;
                no_work()
            },
            Focus::Members => {
                self.member_idx = 0;
                no_work()
            },
        }
    }

    pub fn jump_bottom(&mut self) -> (r: Vec<Work>)
        requires
            old(self).wf(),
        ensures
            old(self).jumps(true, *final(self), app::work_views(r@)),
            final(self).wf(),
    {
        match self.focus {
            Focus::Servers => {
                self.server_idx = decrement(self.servers.len());
                self.refresh_channels()
            },
            Focus::Channels => {
                self.channel_idx = decrement(self.channels.len());
                self.refresh_history(None)
            },
            Focus::Messages => {
                self.msg_idx = decrement(self.messages.len());
                no_work()
            },
            Focus::Members => {
                self.member_idx = decrement(self.members.len());
                no_work()
            },
        }
    }

    /// Does the part of some work that needs nobody else.
    pub fn perform(&mut self, work: &Work) -> (r: Vec<Work>)
        requires
            old(self).wf(),
        ensures
            match *work {
                Work::MoveDown => old(self).moves_down(*final(self), app::work_views(r@)),
                Work::MoveUp => old(self).moves_up(*final(self), app::work_views(r@)),
                _ => *final(self) == *old(self) && app::work_views(r@) == Seq::<
                    WorkView,
                >::empty(),
            },
            final(self).wf(),
    {
        match work {
            Work::MoveDown => self.move_down(),
            Work::MoveUp => self.move_up(),
            _ => no_work(),
        }
    }
}

/// One less, but not less than nothing.
pub open spec fn one_less(i: usize) -> usize {
    if i == 0 {
        0
    } else {
        (i - 1) as usize
    }
}

fn decrement(i: usize) -> (r: usize)
    ensures
        r == one_less(i),
{
    if i == 0 {
        0
    } else {
        i - 1
    }
}

/// The first place among `len` things, or the last.
pub open spec fn end_place(bottom: bool, len: nat) -> usize {
    if bottom {
        app::last_place(len) as usize
    } else {
        0
    }
}

/// Some steps of the same kind.
fn repeated_work(down: bool, n: usize) -> (r: Vec<Work>)
    ensures
        app::work_views(r@) == Seq::new(
            n as nat,
            |i: int|
                if down {
                    WorkView::MoveDown
                } else {
                    WorkView::MoveUp
                },
        ),
{
    let mut out: Vec<Work> = Vec::new();
    let mut i: usize = 0;
    while i < n
        invariant
            i <= n,
            out@.len() == i,
            forall|k: int|
                0 <= k < i ==> (#[trigger] out@[k])@ == (if down {
                    WorkView::MoveDown
                } else {
                    WorkView::MoveUp
                }),
        decreases n - i,
    {
        out.push(if down {
            Work::MoveDown
        } else {
            Work::MoveUp
        });
        i += 1;
    }
    assert(app::work_views(out@) =~= Seq::new(
        n as nat,
        |i: int|
            if down {
                WorkView::MoveDown
            } else {
                WorkView::MoveUp
            },
    ));
    out
}

// ---------------------------------------------------------------------------
// The composer
// ---------------------------------------------------------------------------

/// A text without its last character.
pub open spec fn shortened(s: Seq<char>) -> Seq<char> {
    if s.len() == 0 {
        s
    } else {
        s.drop_last()
    }
}

impl App {
    /// The composer's text changed, and the cursor stands behind it.
    pub open spec fn recomposed(self, new: App, s: Seq<char>) -> bool {
        &&& new.composer@ == s
        &&& new.composer_cursor == text::utf8_len(s)
    }

    /// What a key does while the composer is open.
    pub open spec fn composer_key(
        self,
        key: Key,
        mods: Modifiers,
        new: App,
        work: Seq<WorkView>,
    ) -> bool {
        match key {
            Key::Esc => {
                &&& new == (App { composer_open: false, editing: None, reply_to: None, ..self })
                &&& work.len() == 0
            },
            Key::Enter => if mods.shift {
                new == self && work.len() == 0
            } else {
                self.submits(new, work)
            },
            Key::Backspace => {
                &&& new == (App {
                    composer: new.composer,
                    composer_cursor: new.composer_cursor,
                    ..self
                })
                &&& self.recomposed(new, shortened(self.composer@))
                &&& work.len() == 0
            },
            Key::Char(c) => {
                &&& work.len() == 0
                &&& if c == 'u' && mods.control {
                    new == (App { composer: new.composer, ..self }) && new.composer@.len() == 0
                } else if c == 'v' && mods.control {
                    new == self
                } else if c == '@' {
                    &&& new == (App {
                        composer: new.composer,
                        composer_cursor: new.composer_cursor,
                        status: new.status,
                        ..self
                    })
                    &&& self.recomposed(new, self.composer@.push(c))
                    &&& new.status@ == "mention: type a name, Tab completion roadmap"@
                } else {
                    &&& new == (App {
                        composer: new.composer,
                        composer_cursor: new.composer_cursor,
                        ..self
                    })
                    &&& self.recomposed(new, self.composer@.push(c))
                }
            },
            _ => new == self && work.len() == 0,
        }
    }

    fn handle_composer_key(&mut self, key: Key, mods: Modifiers) -> (r: Vec<Work>)
        requires
            old(self).wf(),
        ensures
            old(self).composer_key(key, mods, *final(self), app::work_views(r@)),
            final(self).wf(),
    {
        match key {
            Key::Esc => {
                self.composer_open = false;
                self.editing = None;
                self.reply_to = None;
            },
            Key::Enter => {
                if !mods.shift {
                    return self.submit_composer();
                }
            },
            Key::Backspace => {
                self.composer.pop();
                self.composer_cursor = self.composer.as_str().len();
            },
            Key::Char(c) => {
                if c == 'u' && mods.control {
                    self.composer.clear();
                } else if c == 'v' && mods.control {
                } else {
                    self.composer.push(c);
                    self.composer_cursor = self.composer.as_str().len();
                    if c == '@' {
                        self.status = "mention: type a name, Tab completion roadmap".to_owned();
                    }
                }
            },
            _ => {},
        }
        no_work()
    }
}

// ---------------------------------------------------------------------------
// Popups
// ---------------------------------------------------------------------------

impl App {
    /// What is done once a popup that asks was confirmed.
    pub open spec fn confirms(self, popup: Popup, new: App, work: Seq<WorkView>) -> bool {
        match popup {
            Popup::ConfirmDelete => match self.message() {
                Some(m) => if m.author.id != self.me.id {
                    new.says(self, "only your own messages can be deleted"@) && work.len() == 0
                } else {
                    new == self && work == seq![WorkView::Delete(m.id)]
                },
                None => new == self && work.len() == 0,
            },
            Popup::ConfirmLogout => new == self && work == seq![WorkView::Logout],
            _ => new == self && work.len() == 0,
        }
    }

    pub fn confirm_popup(&mut self, popup: Popup) -> (r: Vec<Work>)
        requires
            old(self).wf(),
        ensures
            old(self).confirms(popup, *final(self), app::work_views(r@)),
            final(self).wf(),
    {
        match popup {
            Popup::ConfirmDelete => {
                let (own, message) = match self.selected_message() {
                    Some(m) => (m.author.id == self.me.id, m.id),
                    None => {
                        return no_work();
                    },
                };
                if !own {
                    self.status = "only your own messages can be deleted".to_owned();
                    return no_work();
                }
                one_work(Work::Delete(message))
            },
            Popup::ConfirmLogout => one_work(Work::Logout),
            _ => no_work(),
        }
    }

    /// The popup is closed and its input emptied.
    pub open spec fn popup_done(self, new: App) -> bool {
        &&& new == (App {
            popup: Popup::Closed,
            popup_input: new.popup_input,
            popup_idx: 0,
            ..self
        })
        &&& new.popup_input@.len() == 0
    }

    fn finish_popup(&mut self)
        requires
            old(self).wf(),
        ensures
            old(self).popup_done(*final(self)),
            final(self).wf(),
    {
        self.popup = Popup::Closed;
        self.popup_input.clear();
        self.popup_idx = 0;
    }

    /// What is done with what is chosen in a popup.
    pub open spec fn activates(self, new: App, work: Seq<WorkView>) -> bool {
        match self.popup {
            Popup::ChannelSwitcher => if self.popup_idx < self.switcher().len() {
                let chosen = App {
                    channel_idx: self.switcher()[self.popup_idx as int].1,
                    focus: Focus::Messages,
                    ..self
                };
                &&& chosen.popup_done(new)
                &&& work == chosen.asks_history(None)
            } else {
                self.popup_done(new) && work.len() == 0
            },
            Popup::Search => {
                &&& self.popup_done(new)
                &&& work == seq![
                    WorkView::Search {
                        query: self.popup_input@,
                        channel: match self.channel() {
                            Some(c) => Some(c.id),
                            None => None,
                        },
                    },
                ]
            },
            Popup::Emoji => match emoji_at(self.popup_idx as int) {
                Some(e) => if self.composer_open {
                    &&& (App { composer: new.composer, ..self }).popup_done(new)
                    &&& new.composer@ == self.composer@ + e
                    &&& work.len() == 0
                } else {
                    &&& self.popup_done(new)
                    &&& work == match self.message() {
                        Some(m) => seq![WorkView::React { id: m.id, emoji: e }],
                        None => Seq::empty(),
                    }
                },
                None => self.popup_done(new) && work.len() == 0,
            },
            _ => {
                &&& new == (App { popup: Popup::Closed, popup_idx: 0, ..self })
                &&& work.len() == 0
            },
        }
    }

    pub fn activate_popup(&mut self) -> (r: Vec<Work>)
        requires
            old(self).wf(),
        ensures
            old(self).activates(*final(self), app::work_views(r@)),
            final(self).wf(),
    {
        let work = match self.popup {
            Popup::ChannelSwitcher => {
                let items = self.switcher_items();
                proof {
                    assert(self.servers.len() == self.servers@.len());
                    assert(self.channels.len() == self.channels@.len());
                    assert(self.messages.len() == self.messages@.len());
                    assert(self.members.len() == self.members@.len());
                    app::law_switcher_offers_the_best(*self);
                }
                let mut work = no_work();
                if self.popup_idx < items.len() {
                    self.channel_idx = items[self.popup_idx].1;
                    self.focus = Focus::Messages;
                    work = self.refresh_history(None);
                }
                self.finish_popup();
                work
            },
            Popup::Search => {
                let query = self.popup_input.clone();
                let channel = match self.selected_channel() {
                    Some(c) => Some(c.id),
                    None => None,
                };
                self.finish_popup();
                one_work(Work::Search { query, channel })
            },
            Popup::Emoji => {
                let mut work = no_work();
                if let Some(e) = emoji(self.popup_idx) {
                    if self.composer_open {
                        self.composer.append(e);
                    } else {
                        work =
                        match self.selected_message() {
                            Some(m) => one_work(Work::React { id: m.id, emoji: e.to_owned() }),
                            None => no_work(),
                        };
                    }
                }
                self.finish_popup();
                work
            },
            _ => {
                self.popup = Popup::Closed;
                self.popup_idx = 0;
                no_work()
            },
        };
        work
    }

    /// What a key does while a popup lies over the panes. One that asks is confirmed by `y`
    /// or Enter, and any other key takes it away.
    pub open spec fn popup_key(
        self,
        key: Key,
        mods: Modifiers,
        new: App,
        work: Seq<WorkView>,
    ) -> bool {
        if self.popup == Popup::ConfirmDelete || self.popup == Popup::ConfirmLogout {
            let closed = App { popup: Popup::Closed, ..self };
            if key == Key::Char('y') || key == Key::Char('Y') || key == Key::Enter {
                closed.confirms(self.popup, new, work)
            } else {
                new == closed && work.len() == 0
            }
        } else if (key == Key::Esc || key == Key::Char('q')) && self.popup_input@.len() == 0 {
            self.popup_done(new) && work.len() == 0
        } else {
            match key {
                Key::Esc => {
                    &&& new == (App { popup_input: new.popup_input, ..self })
                    &&& new.popup_input@.len() == 0
                    &&& work.len() == 0
                },
                Key::Enter => self.activates(new, work),
                Key::Backspace => {
                    &&& new == (App { popup_input: new.popup_input, popup_idx: 0, ..self })
                    &&& new.popup_input@ == shortened(self.popup_input@)
                    &&& work.len() == 0
                },
                Key::Up => {
                    &&& new == (App { popup_idx: one_less(self.popup_idx), ..self })
                    &&& work.len() == 0
                },
                Key::Down => {
                    &&& new == (App { popup_idx: (self.popup_idx + 1) as usize, ..self })
                    &&& work.len() == 0
                },
                Key::Char(c) => {
                    &&& work.len() == 0
                    &&& if c == 'k' && mods.control {
                        new == (App { popup_idx: one_less(self.popup_idx), ..self })
                    } else {
                        &&& new == (App { popup_input: new.popup_input, popup_idx: 0, ..self })
                        &&& new.popup_input@ == self.popup_input@.push(c)
                    }
                },
                _ => new == self && work.len() == 0,
            }
        }
    }

    fn handle_popup_key(&mut self, key: Key, mods: Modifiers) -> (r: Vec<Work>)
        requires
            old(self).wf(),
            old(self).popup_idx < usize::MAX,
        ensures
            old(self).popup_key(key, mods, *final(self), app::work_views(r@)),
            final(self).wf(),
    {
        if self.popup == Popup::ConfirmDelete || self.popup == Popup::ConfirmLogout {
            let popup = self.popup;
            self.popup = Popup::Closed;
            if key == Key::Char('y') || key == Key::Char('Y') || key == Key::Enter {
                return self.confirm_popup(popup);
            }
            return no_work();
        }
        let empty: bool = self.popup_input.as_str().is_empty();
        if (key == Key::Esc || key == Key::Char('q')) && empty {
            self.finish_popup();
            return no_work();
        }
        match key {
            Key::Esc => {
                self.popup_input.clear();
            },
            Key::Enter => {
                return self.activate_popup();
            },
            Key::Backspace => {
                self.popup_input.pop();
                self.popup_idx = 0;
            },
            Key::Up => {
                self.popup_idx = decrement(self.popup_idx);
            },
            Key::Down => {
                self.popup_idx = self.popup_idx + 1;
            },
            Key::Char(c) => {
                if c == 'k' && mods.control {
                    self.popup_idx = decrement(self.popup_idx);
                } else {
                    self.popup_input.push(c);
                    self.popup_idx = 0;
                }
            },
            _ => {},
        }
        no_work()
    }
}

// ---------------------------------------------------------------------------
// Behind the leader key
// ---------------------------------------------------------------------------

impl App {
    /// What a key does behind the leader key.
    pub open spec fn leader_key_does(self, key: Key, new: App, work: Seq<WorkView>) -> bool {
        match key {
            Key::Char(c) => if c == ' ' {
                &&& new == (App {
                    popup: Popup::ChannelSwitcher,
                    popup_input: new.popup_input,
                    popup_idx: 0,
                    ..self
                })
                &&& new.popup_input@.len() == 0
                &&& work.len() == 0
            } else if c == '1' {
                new == (App { show_servers: !self.show_servers, ..self }) && work.len() == 0
            } else if c == '2' {
                new == (App { show_channels: !self.show_channels, ..self }) && work.len() == 0
            } else if c == '4' {
                new == (App { show_members: !self.show_members, ..self }) && work.len() == 0
            } else if c == 'a' {
                new == (App { popup: Popup::MessageActions, ..self }) && work.len() == 0
            } else if c == 'n' {
                &&& new == (App { popup: Popup::Inbox, ..self })
                &&& work == seq![WorkView::FetchNotifications]
            } else if c == 'o' {
                new == (App { popup: Popup::Help, ..self }) && work.len() == 0
            } else if c == 'p' {
                &&& new.says(self, self.me.shown_name() + " ("@ + self.me.name@ + ")"@)
                &&& work.len() == 0
            } else if c == 'v' {
                &&& new.says(
                    self,
                    "voice is a UI placeholder in v1 (self-hosted audio roadmap)"@,
                )
                &&& work.len() == 0
            } else if c == 'l' {
                new == (App { popup: Popup::ConfirmLogout, ..self }) && work.len() == 0
            } else {
                new == self && work.len() == 0
            },
            _ => new == self && work.len() == 0,
        }
    }

    fn handle_leader_key(&mut self, key: Key) -> (r: Vec<Work>)
        requires
            old(self).wf(),
        ensures
            old(self).leader_key_does(key, *final(self), app::work_views(r@)),
            final(self).wf(),
    {
        match key {
            Key::Char(' ') => {
                self.popup = Popup::ChannelSwitcher;
                self.popup_input.clear();
                self.popup_idx = 0;
            },
            Key::Char('1') => {
                self.show_servers = !self.show_servers;
            },
            Key::Char('2') => {
                self.show_channels = !self.show_channels;
            },
            Key::Char('4') => {
                self.show_members = !self.show_members;
            },
            Key::Char('a') => {
                self.popup = Popup::MessageActions;
            },
            Key::Char('n') => {
                self.popup = Popup::Inbox;
                return self.refresh_notifications();
            },
            Key::Char('o') => {
                self.popup = Popup::Help;
            },
            Key::Char('p') => {
                let mut status = text::joined(self.me.display(), " (");
                status.append(self.me.name.as_str());
                status.append(")");
                self.status = status;
            },
            Key::Char('v') => {
                self.status =
                "voice is a UI placeholder in v1 (self-hosted audio roadmap)".to_owned();
            },
            Key::Char('l') => {
                self.popup = Popup::ConfirmLogout;
            },
            _ => {},
        }
        no_work()
    }
}

// ---------------------------------------------------------------------------
// In the panes
// ---------------------------------------------------------------------------

impl App {
    /// A popup with an input is opened.
    pub open spec fn opens_input(self, popup: Popup, new: App) -> bool {
        &&& new == (App { popup, popup_input: new.popup_input, ..self })
        &&& new.popup_input@.len() == 0
    }

    /// What a character does in the panes.
    pub open spec fn pane_char(
        self,
        c: char,
        mods: Modifiers,
        new: App,
        work: Seq<WorkView>,
    ) -> bool {
        if c == 'q' {
            if self.focus == Focus::Messages && self.reply_to is Some {
                new == (App { reply_to: None, ..self }) && work.len() == 0
            } else {
                new == self && work == seq![WorkView::Quit]
            }
        } else if c == '1' {
            new == (App { focus: Focus::Servers, ..self }) && work.len() == 0
        } else if c == '2' {
            new == (App { focus: Focus::Channels, ..self }) && work.len() == 0
        } else if c == '3' {
            new == (App { focus: Focus::Messages, ..self }) && work.len() == 0
        } else if c == '4' {
            new == (App { focus: Focus::Members, ..self }) && work.len() == 0
        } else if c == 'i' {
            new == (App { composer_open: true, ..self }) && work.len() == 0
        } else if c == '/' {
            self.opens_input(Popup::Search, new) && work.len() == 0
        } else if c == ':' {
            self.opens_input(Popup::Emoji, new) && work.len() == 0
        } else if c == 'j' {
            self.moves_down(new, work)
        } else if c == 'k' {
            self.moves_up(new, work)
        } else if c == 'G' {
            self.jumps(true, new, work)
        } else if c == 'g' {
            self.jumps(false, new, work)
        } else if c == 'y' {
            match self.message() {
                Some(m) => {
                    &&& new.says(
                        self,
                        "copied "@ + text::decimal_text(text::utf8_len(m.content@) as nat)
                            + " chars"@,
                    )
                    &&& work == seq![WorkView::Copy(m.content@)]
                },
                None => new == self && work.len() == 0,
            }
        } else if c == 'R' {
            &&& work.len() == 0
            &&& match self.message() {
                Some(m) => new == (App { reply_to: Some(m.id), composer_open: true, ..self }),
                None => new == self,
            }
        } else if c == 'r' {
            &&& work.len() == 0
            &&& if mods.shift || mods.control || mods.other {
                new == self
            } else {
                self.opens_input(Popup::Emoji, new)
            }
        } else if c == 'e' {
            &&& work.len() == 0
            &&& match self.message() {
                Some(m) => if m.author.id == self.me.id {
                    new == (App {
                        editing: Some(m.id),
                        composer: m.content,
                        composer_open: true,
                        ..self
                    })
                } else {
                    new.says(self, "only your own messages can be edited"@)
                },
                None => new == self,
            }
        } else if c == 'd' {
            if mods.control {
                &&& new == self
                &&& work == Seq::new(10, |i: int| WorkView::MoveDown)
            } else {
                new == (App { popup: Popup::ConfirmDelete, ..self }) && work.len() == 0
            }
        } else if c == 'o' {
            &&& new == self
            &&& work == match self.message() {
                Some(m) => match first_url(m.content@, 0) {
                    Some(url) => seq![WorkView::OpenUrl(url)],
                    None => Seq::empty(),
                },
                None => Seq::empty(),
            }
        } else if c == 'u' && mods.control {
            &&& new == self
            &&& work == Seq::new(10, |i: int| WorkView::MoveUp)
        } else {
            new == self && work.len() == 0
        }
    }

    /// What a key does in the panes.
    pub open spec fn pane_key(
        self,
        key: Key,
        mods: Modifiers,
        new: App,
        work: Seq<WorkView>,
    ) -> bool {
        match key {
            Key::Char(c) => self.pane_char(c, mods, new, work),
            Key::Tab => {
                &&& new == (App { focus: new.focus, ..self })
                &&& new.focus.place() == (self.focus.place() + 1) % 4
                &&& work.len() == 0
            },
            Key::BackTab => {
                &&& new == (App { focus: new.focus, ..self })
                &&& new.focus.place() == (self.focus.place() + 3) % 4
                &&& work.len() == 0
            },
            Key::Down => self.moves_down(new, work),
            Key::Up => self.moves_up(new, work),
            Key::Enter => {
                &&& new == self
                &&& work == match self.focus {
                    Focus::Servers => self.asks_channels(),
                    Focus::Channels => self.asks_history(None),
                    _ => Seq::empty(),
                }
            },
            _ => new == self && work.len() == 0,
        }
    }

    fn handle_pane_char(&mut self, c: char, mods: Modifiers) -> (r: Vec<Work>)
        requires
            old(self).wf(),
        ensures
            old(self).pane_char(c, mods, *final(self), app::work_views(r@)),
            final(self).wf(),
    {
        match c {
            'q' => {
                if self.focus == Focus::Messages && self.reply_to.is_some() {
                    self.reply_to = None;
                } else {
                    return one_work(Work::Quit);
                }
            },
            '1' => {
                self.focus = Focus::Servers;
            },
            '2' => {
                self.focus = Focus::Channels;
            },
            '3' => {
                self.focus = Focus::Messages;
            },
            '4' => {
                self.focus = Focus::Members;
            },
            'i' => {
                self.composer_open = true;
            },
            '/' => {
                self.popup = Popup::Search;
                self.popup_input.clear();
            },
            ':' => {
                self.popup = Popup::Emoji;
                self.popup_input.clear();
            },
            'j' => {
                return self.move_down();
            },
            'k' => {
                return self.move_up();
            },
            'G' => {
                return self.jump_bottom();
            },
            'g' => {
                return self.jump_top();
            },
            'y' => {
                let content = match self.selected_message() {
                    Some(m) => m.content.clone(),
                    None => {
                        return no_work();
                    },
                };
                let number = text::decimal(content.as_str().len() as u64);
                let mut status = text::joined("copied ", number.as_str());
                status.append(" chars");
                self.status = status;
                return one_work(Work::Copy(content));
            },
            'R' => {
                let message = match self.selected_message() {
                    Some(m) => m.id,
                    None => {
                        return no_work();
                    },
                };
                self.reply_to = Some(message);
                self.composer_open = true;
            },
            'r' => {
                if !(mods.shift || mods.control || mods.other) {
                    self.popup = Popup::Emoji;
                    self.popup_input.clear();
                }
            },
            'e' => {
                let (own, message, content) = match self.selected_message() {
                    Some(m) => (m.author.id == self.me.id, m.id, m.content.clone()),
                    None => {
                        return no_work();
                    },
                };
                if own {
                    self.editing = Some(message);
                    self.composer = content;
                    self.composer_open = true;
                } else {
                    self.status = "only your own messages can be edited".to_owned();
                }
            },
            'd' => {
                if mods.control {
                    let work = repeated_work(true, 10);
                    assert(app::work_views(work@) =~= Seq::new(
                        10,
                        |i: int| WorkView::MoveDown,
                    ));
                    return work;
                }
                self.popup = Popup::ConfirmDelete;
            },
            'o' => {
                if let Some(m) = self.selected_message() {
                    if let Some(url) = open_url_in_message(m.content.as_str()) {
                        return one_work(Work::OpenUrl(url));
                    }
                }
            },
            'u' => {
                if mods.control {
                    let work = repeated_work(false, 10);
                    assert(app::work_views(work@) =~= Seq::new(10, |i: int| WorkView::MoveUp));
                    return work;
                }
            },
            _ => {},
        }
        no_work()
    }

    fn handle_pane_key(&mut self, key: Key, mods: Modifiers) -> (r: Vec<Work>)
        requires
            old(self).wf(),
        ensures
            old(self).pane_key(key, mods, *final(self), app::work_views(r@)),
            final(self).wf(),
    {
        match key {
            Key::Char(c) => {
                return self.handle_pane_char(c, mods);
            },
            Key::Tab => {
                self.focus = self.focus.next();
            },
            Key::BackTab => {
                self.focus = self.focus.prev();
            },
            Key::Down => {
                return self.move_down();
            },
            Key::Up => {
                return self.move_up();
            },
            Key::Enter => {
                match self.focus {
                    Focus::Servers => {
                        return self.refresh_channels();
                    },
                    Focus::Channels => {
                        return self.refresh_history(None);
                    },
                    _ => {},
                }
            },
            _ => {},
        }
        no_work()
    }

    /// What a key does: the composer takes it first, then a popup, then the leader key that
    /// came before it, then the panes.
    pub open spec fn handles_key(
        self,
        key: Key,
        mods: Modifiers,
        pending: bool,
        leader: Key,
        new: App,
        new_pending: bool,
        work: Seq<WorkView>,
    ) -> bool {
        if self.composer_open {
            self.composer_key(key, mods, new, work) && new_pending == pending
        } else if self.popup != Popup::Closed {
            self.popup_key(key, mods, new, work) && new_pending == pending
        } else if pending {
            self.leader_key_does(key, new, work) && !new_pending
        } else if key == leader {
            new == self && work.len() == 0 && new_pending
        } else {
            self.pane_key(key, mods, new, work) && !new_pending
        }
    }

    /// Handles a key. `leader_pending` says whether the leader key came before it.
    pub fn handle_key(
        &mut self,
        key: Key,
        mods: Modifiers,
        leader_pending: &mut bool,
        leader: Key,
    ) -> (r: Vec<Work>)
        requires
            old(self).wf(),
            old(self).popup_idx < usize::MAX,
        ensures
            old(self).handles_key(
                key,
                mods,
                *old(leader_pending),
                leader,
                *final(self),
                *final(leader_pending),
                app::work_views(r@),
            ),
            final(self).wf(),
    {
        if self.composer_open {
            return self.handle_composer_key(key, mods);
        }
        if self.popup != Popup::Closed {
            return self.handle_popup_key(key, mods);
        }
        if *leader_pending {
            *leader_pending = false;
            return self.handle_leader_key(key);
        }
        if key == leader {
            *leader_pending = true;
            return no_work();
        }
        self.handle_pane_key(key, mods)
    }
}

// ---------------------------------------------------------------------------
// Laws
// ---------------------------------------------------------------------------

/// A key asks for the deletion of a message only where it confirms it, the message is
/// selected, and the user wrote it.
pub proof fn law_only_own_messages_are_deleted(
    app: App,
    key: Key,
    mods: Modifiers,
    pending: bool,
    leader: Key,
    new: App,
    new_pending: bool,
    work: Seq<WorkView>,
    message: crate::id::Uuid,
)
    requires
        app.handles_key(key, mods, pending, leader, new, new_pending, work),
        work.contains(WorkView::Delete(message)),
    ensures
        app.popup == Popup::ConfirmDelete,
        key == Key::Char('y') || key == Key::Char('Y') || key == Key::Enter,
        app.message() matches Some(m) && m.id == message && m.author.id == app.me.id,
{
}

/// A key starts to edit a message only where the user wrote it.
pub proof fn law_only_own_messages_are_edited(
    app: App,
    key: Key,
    mods: Modifiers,
    pending: bool,
    leader: Key,
    new: App,
    new_pending: bool,
    work: Seq<WorkView>,
)
    requires
        app.handles_key(key, mods, pending, leader, new, new_pending, work),
        app.editing is None,
        new.editing is Some,
    ensures
        app.message() matches Some(m) && new.editing == Some(m.id) && m.author.id == app.me.id
            && new.composer == m.content && new.composer_open,
{
}

/// What is typed into the composer or a popup does not end the program, unless it confirms
/// that the user wants to log out.
pub proof fn law_typing_never_quits(
    app: App,
    key: Key,
    mods: Modifiers,
    pending: bool,
    leader: Key,
    new: App,
    new_pending: bool,
    work: Seq<WorkView>,
)
    requires
        app.handles_key(key, mods, pending, leader, new, new_pending, work),
        app.composer_open || app.popup != Popup::Closed,
    ensures
        !work.contains(WorkView::Quit),
        work.contains(WorkView::Logout) ==> !app.composer_open && app.popup
            == Popup::ConfirmLogout && (key == Key::Char('y') || key == Key::Char('Y') || key
            == Key::Enter),
{
}

/// A step down, where there is one, is undone by a step up.
pub proof fn law_up_undoes_down(
    app: App,
    down: App,
    up: App,
    work: Seq<WorkView>,
    more: Seq<WorkView>,
)
    requires
        app.wf(),
        app.fits(),
        app.moves_down(down, work),
        down.moves_up(up, more),
        match app.focus {
            Focus::Servers => app.server_idx + 1 < app.servers@.len(),
            Focus::Channels => app.channel_idx + 1 < app.channels@.len(),
            Focus::Messages => app.msg_idx + 1 < app.messages@.len(),
            Focus::Members => app.member_idx + 1 < app.members@.len(),
        },
    ensures
        up == app,
{
}

/// The bottom is where no step down leads on.
pub proof fn law_bottom_is_the_end(
    app: App,
    bottom: App,
    further: App,
    work: Seq<WorkView>,
    more: Seq<WorkView>,
)
    requires
        app.fits(),
        app.jumps(true, bottom, work),
        bottom.moves_down(further, more),
    ensures
        further == bottom,
        more.len() == 0,
{
}

} // verus!

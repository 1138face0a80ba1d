//! What the server and the client say to each other, over REST and over WebSocket.

use crate::id::Uuid;
use crate::time::Timestamp;
use vstd::prelude::*;

verus! {

pub const PROTOCOL_VERSION: u32 = 1;

/// A user account.
#[derive(Debug)]
pub struct User {
    pub id: Uuid,
    pub name: String,
    pub display_name: Option<String>,
    pub avatar_url: Option<String>,
    pub bot: bool,
    pub created_at: Timestamp,
}

/// A copy of an optional text.
pub fn clone_text(s: &Option<String>) -> (r: Option<String>)
    ensures
        r == *s,
{
    match s {
        Some(t) => Some(t.clone()),
        None => None,
    }
}

impl Clone for User {
    fn clone(&self) -> (r: User)
        ensures
            r == *self,
    {
        User {
            id: self.id,
            name: self.name.clone(),
            display_name: clone_text(&self.display_name),
            avatar_url: clone_text(&self.avatar_url),
            bot: self.bot,
            created_at: self.created_at,
        }
    }
}

impl User {
    /// The name that others see: the display name, or the account's name where there is
    /// none.
    pub open spec fn shown_name(&self) -> Seq<char> {
        match self.display_name {
            Some(d) => d@,
            None => self.name@,
        }
    }

    pub fn display(&self) -> (r: &str)
        ensures
            r@ == self.shown_name(),
    {
        match &self.display_name {
            Some(d) => d.as_str(),
            None => self.name.as_str(),
        }
    }
}

/// Whether someone is there.
#[derive(Debug, Clone, Copy, PartialEq, Eq, Structural)]
pub enum Presence {
    Online,
    Idle,
    Dnd,
    Offline,
}

impl Default for Presence {
    fn default() -> (r: Presence)
        ensures
            r == Presence::Offline,
    {
        Presence::Offline
    }
}

/// A top-level container of channels.
#[derive(Debug)]
pub struct Server {
    pub id: Uuid,
    pub name: String,
    pub description: Option<String>,
    pub created_at: Timestamp,
    pub unread: bool,
    pub mentioned: bool,
}

/// Channel kinds. Threads and forum posts are channels with a parent.
#[derive(Debug, Clone, Copy, PartialEq, Eq, Structural)]
pub enum ChannelKind {
    Text,
    Announcement,
    Thread,
    ForumPost,
    VoicePlaceholder,
    Direct,
}

#[derive(Debug)]
pub struct Channel {
    pub id: Uuid,
    pub server_id: Option<Uuid>,
    pub parent_id: Option<Uuid>,
    pub name: String,
    pub topic: Option<String>,
    pub kind: ChannelKind,
    pub position: i64,
    pub unread_count: u64,
    pub mentioned: bool,
    pub muted: bool,
}

impl Clone for Channel {
    fn clone(&self) -> (r: Channel)
        ensures
            r == *self,
    {
        Channel {
            id: self.id,
            server_id: self.server_id,
            parent_id: self.parent_id,
            name: self.name.clone(),
            topic: clone_text(&self.topic),
            kind: self.kind,
            position: self.position,
            unread_count: self.unread_count,
            mentioned: self.mentioned,
            muted: self.muted,
        }
    }
}

/// How often a message got an emoji, and whether from the one who asks.
#[derive(Debug)]
pub struct ReactionCount {
    pub emoji: String,
    pub count: u64,
    pub me: bool,
}

impl Clone for ReactionCount {
    fn clone(&self) -> (r: ReactionCount)
        ensures
            r == *self,
    {
        ReactionCount { emoji: self.emoji.clone(), count: self.count, me: self.me }
    }
}

#[derive(Debug)]
pub struct Attachment {
    pub id: Uuid,
    pub filename: String,
    pub url: String,
    pub mime: Option<String>,
    pub size: u64,
    pub width: Option<u32>,
    pub height: Option<u32>,
}

impl Clone for Attachment {
    fn clone(&self) -> (r: Attachment)
        ensures
            r == *self,
    {
        Attachment {
            id: self.id,
            filename: self.filename.clone(),
            url: self.url.clone(),
            mime: clone_text(&self.mime),
            size: self.size,
            width: self.width,
            height: self.height,
        }
    }
}

#[derive(Debug)]
pub struct Embed {
    pub title: Option<String>,
    pub description: Option<String>,
    pub url: Option<String>,
    pub color: Option<u32>,
}

impl Clone for Embed {
    fn clone(&self) -> (r: Embed)
        ensures
            r == *self,
    {
        Embed {
            title: clone_text(&self.title),
            description: clone_text(&self.description),
            url: clone_text(&self.url),
            color: self.color,
        }
    }
}

impl Default for Embed {
    fn default() -> (r: Embed)
        ensures
            r == (Embed { title: None, description: None, url: None, color: None }),
    {
        Embed { title: None, description: None, url: None, color: None }
    }
}

/// A chat message. Its markdown is rendered where it is shown.
#[derive(Debug)]
pub struct Message {
    pub id: Uuid,
    pub channel_id: Uuid,
    pub author: User,
    pub content: String,
    pub created_at: Timestamp,
    pub edited_at: Option<Timestamp>,
    pub reply_to: Option<Uuid>,
    pub pinned: bool,
    pub reactions: Vec<ReactionCount>,
    pub attachments: Vec<Attachment>,
    pub embeds: Vec<Embed>,
}

/// Two values of a message that say the same.
pub open spec fn same_message(a: Message, b: Message) -> bool {
    &&& a.id == b.id
    &&& a.channel_id == b.channel_id
    &&& a.author == b.author
    &&& a.content == b.content
    &&& a.created_at == b.created_at
    &&& a.edited_at == b.edited_at
    &&& a.reply_to == b.reply_to
    &&& a.pinned == b.pinned
    &&& a.reactions@ == b.reactions@
    &&& a.attachments@ == b.attachments@
    &&& a.embeds@ == b.embeds@
}

/// A copy of the reactions of a message.
pub fn clone_reactions(v: &Vec<ReactionCount>) -> (r: Vec<ReactionCount>)
    ensures
        r@ == v@,
{
    let mut out: Vec<ReactionCount> = Vec::new();
    let mut i: usize = 0;
    while i < v.len()
        invariant
            i <= v@.len(),
            out@ == v@.take(i as int),
        decreases v@.len() - i,
    {
        out.push(v[i].clone());
        assert(v@.take(i + 1) =~= v@.take(i as int).push(v@[i as int]));
        i += 1;
    }
    assert(v@.take(i as int) =~= v@);
    out
}

fn clone_attachments(v: &Vec<Attachment>) -> (r: Vec<Attachment>)
    ensures
        r@ == v@,
{
    let mut out: Vec<Attachment> = Vec::new();
    let mut i: usize = 0;
    while i < v.len()
        invariant
            i <= v@.len(),
            out@ == v@.take(i as int),
        decreases v@.len() - i,
    {
        out.push(v[i].clone());
        assert(v@.take(i + 1) =~= v@.take(i as int).push(v@[i as int]));
        i += 1;
    }
    assert(v@.take(i as int) =~= v@);
    out
}

fn clone_embeds(v: &Vec<Embed>) -> (r: Vec<Embed>)
    ensures
        r@ == v@,
{
    let mut out: Vec<Embed> = Vec::new();
    let mut i: usize = 0;
    while i < v.len()
        invariant
            i <= v@.len(),
            out@ == v@.take(i as int),
        decreases v@.len() - i,
    {
        out.push(v[i].clone());
        assert(v@.take(i + 1) =~= v@.take(i as int).push(v@[i as int]));
        i += 1;
    }
    assert(v@.take(i as int) =~= v@);
    out
}

impl Clone for Message {
    fn clone(&self) -> (r: Message)
        ensures
            same_message(r, *self),
    {
        Message {
            id: self.id,
            channel_id: self.channel_id,
            author: self.author.clone(),
            content: self.content.clone(),
            created_at: self.created_at,
            edited_at: self.edited_at,
            reply_to: self.reply_to,
            pinned: self.pinned,
            reactions: clone_reactions(&self.reactions),
            attachments: clone_attachments(&self.attachments),
            embeds: clone_embeds(&self.embeds),
        }
    }
}

// ---------------------------------------------------------------------------
// REST
// ---------------------------------------------------------------------------

#[derive(Debug)]
pub struct RegisterRequest {
    pub name: String,
    pub display_name: Option<String>,
    pub password: String,
}

#[derive(Debug)]
pub struct LoginRequest {
    pub name: String,
    pub password: String,
}

#[derive(Debug)]
pub struct AuthResponse {
    pub token: String,
    pub user: User,
}

#[derive(Debug)]
pub struct CreateServerRequest {
    pub name: String,
    pub description: Option<String>,
}

#[derive(Debug)]
pub struct CreateChannelRequest {
    pub name: String,
    pub topic: Option<String>,
    pub kind: Option<ChannelKind>,
}

#[derive(Debug)]
pub struct SendMessageRequest {
    pub content: String,
    pub reply_to: Option<Uuid>,
    /// Idempotency key.
    pub nonce: Option<Uuid>,
}

#[derive(Debug)]
pub struct EditMessageRequest {
    pub content: String,
}

#[derive(Debug)]
pub struct UpdateMeRequest {
    /// `Some(name)` sets a new display name (a blank one clears it); `None` changes nothing.
    pub display_name: Option<String>,
    /// `Some(password)` sets a new password of at least 4 characters; `None` changes nothing.
    pub password: Option<String>,
}

#[derive(Debug)]
pub struct SetAvatarRequest {
    /// The bytes of a PNG, JPEG, GIF or WebP image in base64, at most 1 MiB of them.
    pub data_base64: String,
}

#[derive(Debug)]
pub struct MessagesPage {
    pub items: Vec<Message>,
    pub has_more: bool,
}

#[derive(Debug)]
pub struct SearchRequest {
    pub query: String,
    pub server_id: Option<Uuid>,
    pub channel_id: Option<Uuid>,
    pub author: Option<String>,
    pub limit: Option<u32>,
}

#[derive(Debug)]
pub struct Member {
    pub user: User,
    pub presence: Presence,
    pub roles: Vec<String>,
}

#[derive(Debug)]
pub struct Notification {
    pub id: Uuid,
    pub channel_id: Uuid,
    pub message: Message,
    pub kind: NotificationKind,
    pub created_at: Timestamp,
    pub read: bool,
}

#[derive(Debug, Clone, Copy, PartialEq, Eq, Structural)]
pub enum NotificationKind {
    Mention,
    Reply,
    Direct,
}

// ---------------------------------------------------------------------------
// WebSocket
// ---------------------------------------------------------------------------

/// Live events, from the server to the client.
#[derive(Debug)]
#[allow(inconsistent_fields)]
pub enum WsEvent {
    Hello { protocol: u32, user: User },
    MessageCreated { message: Message },
    MessageEdited { message: Message },
    MessageDeleted { channel_id: Uuid, id: Uuid },
    ReactionUpdated { channel_id: Uuid, message_id: Uuid, reactions: Vec<ReactionCount> },
    ChannelCreated { channel: Channel },
    Typing { channel_id: Uuid, user: User },
    PresenceUpdated { user_id: Uuid, presence: Presence },
    NotificationCreated { notification: Notification },
    Error { message: String },
}

/// Commands, from the client to the server.
#[derive(Debug)]
pub enum WsCommand {
    Subscribe { channel_ids: Vec<Uuid> },
    Typing { channel_id: Uuid },
}

} // verus!

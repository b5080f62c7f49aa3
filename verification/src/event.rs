//! The events that the bridge handles, in the one shape that both sources
//! bring them to: messages and reactions from chat, comments from the tracker.

use vstd::prelude::*;
use vstd::string::*;

verus! {

/// The symbol of a reaction.
#[allow(inconsistent_fields)]
#[derive(Clone, Debug, PartialEq, Eq)]
pub enum Emoji {
    /// A symbol of the common set, by its text.
    Unicode { name: String },
    /// A symbol that a guild has made for itself.
    Custom { id: u64, name: Option<String>, animated: bool },
}

/// What an [`Emoji`] holds.
#[allow(inconsistent_fields)]
pub enum EmojiView {
    Unicode { name: Seq<char> },
    Custom { id: u64, name: Option<Seq<char>>, animated: bool },
}

impl View for Emoji {
    type V = EmojiView;

    open spec fn view(&self) -> EmojiView {
        match *self {
            Emoji::Unicode { name } => EmojiView::Unicode { name: name@ },
            Emoji::Custom { id, name, animated } => EmojiView::Custom {
                id,
                name: match name {
                    Some(n) => Some(n@),
                    None => None,
                },
                animated,
            },
        }
    }
}

/// The text of the reaction that turns a message into an issue.
pub open spec fn trigger_name() -> Seq<char> {
    "\u{1F41B}"@
}

/// Whether `emoji` is the reaction that turns a message into an issue.
pub open spec fn is_trigger(emoji: EmojiView) -> bool {
    emoji == (EmojiView::Unicode { name: trigger_name() })
}

impl Emoji {
    /// Whether this is the reaction that turns a message into an issue.
    pub fn is_trigger(&self) -> (yes: bool)
        ensures
            yes == is_trigger(self@),
    {
        match self {
            Emoji::Unicode { name } => {
                let trigger = "\u{1F41B}".to_owned();
                *name == trigger
            },
            Emoji::Custom { .. } => false,
        }
    }

    /// A second value of the same symbol.
    pub fn duplicate(&self) -> (copy: Emoji)
        ensures
            copy@ == self@,
    {
        match self {
            Emoji::Unicode { name } => Emoji::Unicode { name: name.clone() },
            Emoji::Custom { id, name, animated } => Emoji::Custom {
                id: *id,
                name: match name {
                    Some(n) => Some(n.clone()),
                    None => None,
                },
                animated: *animated,
            },
        }
    }
}

/// A message that was written in chat.
#[derive(Clone, Debug, PartialEq, Eq)]
pub struct ChatMessage {
    /// The channel, or the thread, that the message was written in.
    pub channel_id: u64,
    pub message_id: u64,
    /// The guild of the channel; `None` for a private message.
    pub guild_id: Option<u64>,
    /// The thread that hangs on this message, if one does.
    pub thread_id: Option<u64>,
    /// The name of the writer.
    pub author: String,
    pub content: String,
    /// Whether the writer is a bot.
    pub is_bot: bool,
}

/// What a [`ChatMessage`] holds.
pub struct ChatMessageView {
    pub channel_id: u64,
    pub message_id: u64,
    pub guild_id: Option<u64>,
    pub thread_id: Option<u64>,
    pub author: Seq<char>,
    pub content: Seq<char>,
    pub is_bot: bool,
}

impl View for ChatMessage {
    type V = ChatMessageView;

    open spec fn view(&self) -> ChatMessageView {
        ChatMessageView {
            channel_id: self.channel_id,
            message_id: self.message_id,
            guild_id: self.guild_id,
            thread_id: self.thread_id,
            author: self.author@,
            content: self.content@,
            is_bot: self.is_bot,
        }
    }
}

/// A reaction that was put on a message, or taken off it.
#[derive(Clone, Debug, PartialEq, Eq)]
pub struct ChatReaction {
    pub channel_id: u64,
    pub message_id: u64,
    /// The guild of the channel; `None` outside guilds.
    pub guild_id: Option<u64>,
    /// Who reacted.
    pub user_id: u64,
    pub emoji: Emoji,
    /// The roles that the reacting member holds; `None` where the event names
    /// no member, which is the case outside guilds.
    pub actor_roles: Option<Vec<u64>>,
    /// Whether the reaction was put on (`true`) or taken off.
    pub is_add: bool,
}

/// What a [`ChatReaction`] holds.
pub struct ChatReactionView {
    pub channel_id: u64,
    pub message_id: u64,
    pub guild_id: Option<u64>,
    pub user_id: u64,
    pub emoji: EmojiView,
    pub actor_roles: Option<Seq<u64>>,
    pub is_add: bool,
}

impl View for ChatReaction {
    type V = ChatReactionView;

    open spec fn view(&self) -> ChatReactionView {
        ChatReactionView {
            channel_id: self.channel_id,
            message_id: self.message_id,
            guild_id: self.guild_id,
            user_id: self.user_id,
            emoji: self.emoji@,
            actor_roles: match self.actor_roles {
                Some(roles) => Some(roles@),
                None => None,
            },
            is_add: self.is_add,
        }
    }
}

/// A comment that was written on an issue which a thread stands for.
#[derive(Clone, Debug, PartialEq, Eq)]
pub struct TrackerComment {
    /// The thread that stands for the issue.
    pub thread_id: u64,
    pub repo: String,
    /// The name of the writer.
    pub author: String,
    pub body: String,
    /// Where the comment can be read.
    pub url: String,
}

/// What a [`TrackerComment`] holds.
pub struct TrackerCommentView {
    pub thread_id: u64,
    pub repo: Seq<char>,
    pub author: Seq<char>,
    pub body: Seq<char>,
    pub url: Seq<char>,
}

impl View for TrackerComment {
    type V = TrackerCommentView;

    open spec fn view(&self) -> TrackerCommentView {
        TrackerCommentView {
            thread_id: self.thread_id,
            repo: self.repo@,
            author: self.author@,
            body: self.body@,
            url: self.url@,
        }
    }
}

/// One event of the merged stream.
#[derive(Clone, Debug, PartialEq, Eq)]
pub enum NormalizedEvent {
    ChatMessage(ChatMessage),
    ChatReaction(ChatReaction),
    TrackerComment(TrackerComment),
}

/// What a [`NormalizedEvent`] holds.
pub enum NormalizedEventView {
    ChatMessage(ChatMessageView),
    ChatReaction(ChatReactionView),
    TrackerComment(TrackerCommentView),
}

impl View for NormalizedEvent {
    type V = NormalizedEventView;

    open spec fn view(&self) -> NormalizedEventView {
        match *self {
            NormalizedEvent::ChatMessage(m) => NormalizedEventView::ChatMessage(m@),
            NormalizedEvent::ChatReaction(r) => NormalizedEventView::ChatReaction(r@),
            NormalizedEvent::TrackerComment(c) => NormalizedEventView::TrackerComment(c@),
        }
    }
}

} // verus!

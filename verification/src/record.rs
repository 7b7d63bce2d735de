//! Log records and their canonical text.

use vstd::prelude::*;
use crate::tags::{tag_map_text, TagMap};
use crate::text::{ron_quoted, ron_string_text};

verus! {

/// What is written to a channel's log for one event.
#[derive(Debug, Clone, PartialEq, Eq)]
pub enum LogRecord {
    /// A message that `sender` wrote to the channel.
    PrivateMessage { sender: String, message: String, tags: TagMap },
    /// The chat was cleared: of everything, or of what `user` wrote.
    ClearChat { tags: TagMap, user: Option<String> },
    /// One message was removed.
    ClearMessage { message_id: String, tags: TagMap },
    /// A notice of the server that is logged with its tags alone.
    Notice { command_name: String, tags: TagMap },
}

/// A [`LogRecord`] as plain values.
pub enum LogRecordView {
    PrivateMessage { sender: Seq<char>, message: Seq<char>, tags: Map<Seq<char>, Seq<char>> },
    ClearChat { tags: Map<Seq<char>, Seq<char>>, user: Option<Seq<char>> },
    ClearMessage { message_id: Seq<char>, tags: Map<Seq<char>, Seq<char>> },
    Notice { command_name: Seq<char>, tags: Map<Seq<char>, Seq<char>> },
}

impl View for LogRecord {
    type V = LogRecordView;

    open spec fn view(&self) -> LogRecordView {
        match *self {
            LogRecord::PrivateMessage { sender, message, tags } => LogRecordView::PrivateMessage {
                sender: sender@,
                message: message@,
                tags: tags@,
            },
            LogRecord::ClearChat { tags, user } => LogRecordView::ClearChat {
                tags: tags@,
                user: match user {
                    Some(u) => Some(u@),
                    None => None,
                },
            },
            LogRecord::ClearMessage { message_id, tags } => LogRecordView::ClearMessage {
                message_id: message_id@,
                tags: tags@,
            },
            LogRecord::Notice { command_name, tags } => LogRecordView::Notice {
                command_name: command_name@,
                tags: tags@,
            },
        }
    }
}

/// The text of a private message whose sender, message and tags are written
/// as `sender`, `message` and `tags`.
pub open spec fn priv_msg_text(sender: Seq<char>, message: Seq<char>, tags: Seq<char>) -> Seq<
    char,
> {
    "PRIVMSG(sender:"@ + sender + ",message:"@ + message + ",tags:"@ + tags + ")"@
}

/// The text of a cleared chat whose tags are written as `tags`; `user` goes
/// between quotes as it is.
pub open spec fn clear_chat_text(user: Option<Seq<char>>, tags: Seq<char>) -> Seq<char> {
    match user {
        Some(u) => "CLEARCHAT(user:\""@ + u + "\",tags:"@ + tags + ")"@,
        None => "CLEARCHAT(tags:"@ + tags + ")"@,
    }
}

/// The text of a removed message whose tags are written as `tags`;
/// `message_id` goes between quotes as it is.
pub open spec fn clear_msg_text(message_id: Seq<char>, tags: Seq<char>) -> Seq<char> {
    "CLEARMSG(message:\""@ + message_id + "\",tags:"@ + tags + ")"@
}

/// The text of a notice whose tags are written as `tags`.
pub open spec fn notice_text(command_name: Seq<char>, tags: Seq<char>) -> Seq<char> {
    command_name + "(tags:"@ + tags + ")"@
}

/// The canonical text of a record. Sender and message of a private message
/// are written as RON string literals, the tags as a RON map in canonical
/// order.
pub open spec fn record_text(record: LogRecordView) -> Seq<char> {
    match record {
        LogRecordView::PrivateMessage { sender, message, tags } => priv_msg_text(
            ron_string_text(sender),
            ron_string_text(message),
            tag_map_text(tags),
        ),
        LogRecordView::ClearChat { tags, user } => clear_chat_text(user, tag_map_text(tags)),
        LogRecordView::ClearMessage { message_id, tags } => clear_msg_text(
            message_id,
            tag_map_text(tags),
        ),
        LogRecordView::Notice { command_name, tags } => notice_text(
            command_name,
            tag_map_text(tags),
        ),
    }
}

/// Writes a private message from its parts as they are to appear.
pub fn write_priv_msg(sender: &str, message: &str, tags: &str) -> (r: String)
    ensures
        r@ == priv_msg_text(sender@, message@, tags@),
{
    let mut out = String::from_str("PRIVMSG(sender:");
    out.append(sender);
    out.append(",message:");
    out.append(message);
    out.append(",tags:");
    out.append(tags);
    out.append(")");
    out
}

/// Writes a cleared chat from its parts as they are to appear.
pub fn write_clear_chat(user: Option<&str>, tags: &str) -> (r: String)
    ensures
        r@ == clear_chat_text(
            match user {
                Some(u) => Some(u@),
                None => None,
            },
            tags@,
        ),
{
    match user {
        Some(u) => {
            let mut out = String::from_str("CLEARCHAT(user:\"");
            out.append(u);
            out.append("\",tags:");
            out.append(tags);
            out.append(")");
            out
        },
        None => {
            let mut out = String::from_str("CLEARCHAT(tags:");
            out.append(tags);
            out.append(")");
            out
        },
    }
}

/// Writes a removed message from its parts as they are to appear.
pub fn write_clear_msg(message_id: &str, tags: &str) -> (r: String)
    ensures
        r@ == clear_msg_text(message_id@, tags@),
{
    let mut out = String::from_str("CLEARMSG(message:\"");
    out.append(message_id);
    out.append("\",tags:");
    out.append(tags);
    out.append(")");
    out
}

/// Writes a notice from its parts as they are to appear.
pub fn write_notice(command_name: &str, tags: &str) -> (r: String)
    ensures
        r@ == notice_text(command_name@, tags@),
{
    let mut out = String::from_str(command_name);
    out.append("(tags:");
    out.append(tags);
    out.append(")");
    out
}

impl LogRecord {
    /// The canonical text of the record, without a time.
    pub fn serialize(&self) -> (r: String)
        ensures
            r@ == record_text(self@),
    {
        match self {
            LogRecord::PrivateMessage { sender, message, tags } => {
                let sender = ron_quoted(sender.as_str());
                let message = ron_quoted(message.as_str());
                let tags = tags.to_ron();
                write_priv_msg(sender.as_str(), message.as_str(), tags.as_str())
            },
            LogRecord::ClearChat { tags, user } => {
                let tags = tags.to_ron();
                match user {
                    Some(u) => write_clear_chat(Some(u.as_str()), tags.as_str()),
                    None => write_clear_chat(None, tags.as_str()),
                }
            },
            LogRecord::ClearMessage { message_id, tags } => {
                let tags = tags.to_ron();
                write_clear_msg(message_id.as_str(), tags.as_str())
            },
            LogRecord::Notice { command_name, tags } => {
                let tags = tags.to_ron();
                write_notice(command_name.as_str(), tags.as_str())
            },
        }
    }
}

} // verus!

//! What is done with each event: classification, the record it becomes,
//! and the log file that the record goes to.

use vstd::prelude::*;
use crate::config::{write_action, Action, ActionView, FileHandleManager};
use crate::message::{
    describe, diagnostic_text, named, sender_text, Command, Message, Prefix,
};
use crate::record::{record_text, LogRecord, LogRecordView};
use crate::tags::{pairs_map, tag_pairs, tags_to_map, Tag};
use crate::text::{join, joined, str_equal, texts};

verus! {

/// A failure of the transport to deliver an event, in words.
#[derive(Debug, Clone, PartialEq, Eq)]
pub struct TransportError {
    pub description: String,
}

/// Why an event could not be handled.
#[derive(Debug, Clone, PartialEq, Eq)]
pub enum EventError {
    /// The transport failed to deliver an event.
    Transport(String),
    /// An event came with a number of parameters that its command does not
    /// allow.
    Malformed { command: String, params: Vec<String> },
}

/// An [`EventError`] as plain values.
pub enum EventErrorView {
    Transport(Seq<char>),
    Malformed { command: Seq<char>, params: Seq<Seq<char>> },
}

impl View for EventError {
    type V = EventErrorView;

    open spec fn view(&self) -> EventErrorView {
        match *self {
            EventError::Transport(description) => EventErrorView::Transport(description@),
            EventError::Malformed { command, params } => EventErrorView::Malformed {
                command: command@,
                params: texts(params@),
            },
        }
    }
}

impl EventError {
    /// The error in words.
    pub fn message(&self) -> (r: String)
        ensures
            r@ == match self@ {
                EventErrorView::Transport(description) => "get IRC message: "@ + description,
                EventErrorView::Malformed { command, params } => "unexpected number of params for "@
                    + command + ": "@ + joined(params, " "@),
            },
    {
        match self {
            EventError::Transport(description) => {
                String::from_str("get IRC message: ").concat(description.as_str())
            },
            EventError::Malformed { command, params } => {
                let mut out = String::from_str("unexpected number of params for ");
                out.append(command.as_str());
                out.append(": ");
                out.append(join(params, " ").as_str());
                out
            },
        }
    }
}

/// A record and the channel whose log it goes to.
pub struct Target {
    pub channel: Seq<char>,
    pub record: LogRecordView,
}

/// The record of a private message.
pub open spec fn priv_msg_record(
    sender: Seq<char>,
    message: Seq<char>,
    tags: Option<Vec<Tag>>,
) -> LogRecordView {
    LogRecordView::PrivateMessage { sender, message, tags: pairs_map(tag_pairs(tags)) }
}

/// The record of a cleared chat.
pub open spec fn clear_chat_record(
    user: Option<Seq<char>>,
    tags: Option<Vec<Tag>>,
) -> LogRecordView {
    LogRecordView::ClearChat { tags: pairs_map(tag_pairs(tags)), user }
}

/// The record of a removed message.
pub open spec fn clear_msg_record(
    message_id: Seq<char>,
    tags: Option<Vec<Tag>>,
) -> LogRecordView {
    LogRecordView::ClearMessage { message_id, tags: pairs_map(tag_pairs(tags)) }
}

/// The record of a notice.
pub open spec fn notice_record(
    command_name: Seq<char>,
    tags: Option<Vec<Tag>>,
) -> LogRecordView {
    LogRecordView::Notice { command_name, tags: pairs_map(tag_pairs(tags)) }
}

/// The malformed-event error for `command` with `params`.
pub open spec fn malformed(command: Seq<char>, params: Seq<Seq<char>>) -> EventErrorView {
    EventErrorView::Malformed { command, params }
}

/// What a `CLEARCHAT` with the parameters `params` is logged as: one
/// parameter is the channel, two are the channel and a user; any other
/// number is refused.
pub open spec fn clear_chat_target(params: Seq<Seq<char>>, tags: Option<Vec<Tag>>) -> Result<
    Target,
    EventErrorView,
> {
    if params.len() == 1 {
        Ok(Target { channel: params[0], record: clear_chat_record(None, tags) })
    } else if params.len() == 2 {
        Ok(Target { channel: params[0], record: clear_chat_record(Some(params[1]), tags) })
    } else {
        Err(malformed("CLEARCHAT"@, params))
    }
}

/// What a `CLEARMSG` with the parameters `params` is logged as: two
/// parameters are the channel and the message; any other number is refused.
pub open spec fn clear_msg_target(params: Seq<Seq<char>>, tags: Option<Vec<Tag>>) -> Result<
    Target,
    EventErrorView,
> {
    if params.len() == 2 {
        Ok(Target { channel: params[0], record: clear_msg_record(params[1], tags) })
    } else {
        Err(malformed("CLEARMSG"@, params))
    }
}

/// What an event is logged as, by the name of its command and the number of
/// its parameters: a record for a channel, nothing (the event is only shown
/// in a diagnostic), or the error that refuses it.
pub open spec fn routing(
    command: Command,
    prefix: Option<Prefix>,
    tags: Option<Vec<Tag>>,
) -> Result<Option<Target>, EventErrorView> {
    match named(command) {
        None => Ok(None),
        Some((name, params)) => {
            if name == "PRIVMSG"@ && params.len() == 2 {
                Ok(
                    Some(
                        Target {
                            channel: params[0],
                            record: priv_msg_record(sender_text(prefix), params[1], tags),
                        },
                    ),
                )
            } else if name == "CLEARCHAT"@ {
                match clear_chat_target(params, tags) {
                    Ok(target) => Ok(Some(target)),
                    Err(e) => Err(e),
                }
            } else if name == "CLEARMSG"@ {
                match clear_msg_target(params, tags) {
                    Ok(target) => Ok(Some(target)),
                    Err(e) => Err(e),
                }
            } else if (name == "ROOMSTATE"@ || name == "USERNOTICE"@) && params.len() >= 1 {
                Ok(Some(Target { channel: params[0], record: notice_record(name, tags) }))
            } else {
                Ok(None)
            }
        },
    }
}

/// What is done at the time `timestamp` with a record for a channel, when
/// the open log files are those of `handles`.
pub open spec fn logged(
    handles: Seq<Seq<char>>,
    target: Target,
    timestamp: Seq<char>,
) -> ActionView {
    write_action(handles, target.channel, record_text(target.record), timestamp)
}

/// What is done at the time `timestamp` with an event that is logged as
/// `target` or refused.
pub open spec fn attempted(
    handles: Seq<Seq<char>>,
    target: Result<Target, EventErrorView>,
    timestamp: Seq<char>,
) -> Result<ActionView, EventErrorView> {
    match target {
        Ok(t) => Ok(logged(handles, t, timestamp)),
        Err(e) => Err(e),
    }
}

/// What is done at the time `timestamp` with what the transport delivered:
/// an event that is logged is written for its channel, any other event is
/// printed as a diagnostic, and a malformed event or a failure of the
/// transport is an error.
pub open spec fn dispatched(
    handles: Seq<Seq<char>>,
    irc_event: Result<Message, TransportError>,
    timestamp: Seq<char>,
) -> Result<ActionView, EventErrorView> {
    match irc_event {
        Ok(message) => match routing(message.command, message.prefix, message.tags) {
            Ok(Some(target)) => Ok(logged(handles, target, timestamp)),
            Ok(None) => Ok(
                ActionView::Print {
                    text: diagnostic_text(message.command, message.prefix, message.tags),
                },
            ),
            Err(e) => Err(e),
        },
        Err(e) => Err(EventErrorView::Transport(e.description@)),
    }
}

/// The outcome of a handler as plain values.
pub open spec fn outcome(r: Result<Action, EventError>) -> Result<ActionView, EventErrorView> {
    match r {
        Ok(action) => Ok(action@),
        Err(e) => Err(e@),
    }
}

/// A `CLEARCHAT` that comes without a parameter, or with three or more, is
/// refused as malformed whatever else the event holds: it is neither logged
/// nor printed.
pub proof fn lemma_clear_chat_refused(
    handles: Seq<Seq<char>>,
    message: Message,
    params: Seq<Seq<char>>,
    timestamp: Seq<char>,
)
    requires
        named(message.command) == Some(("CLEARCHAT"@, params)),
        params.len() == 0 || params.len() >= 3,
    ensures
        dispatched(handles, Ok(message), timestamp) == Err::<ActionView, EventErrorView>(
            malformed("CLEARCHAT"@, params),
        ),
{
}

/// Logs a message that `sender` wrote to `channel_name`.
pub fn handle_priv_msg(
    file_handles: &FileHandleManager,
    sender: &str,
    channel_name: &String,
    message: &String,
    tags: Option<Vec<Tag>>,
) -> (r: Action)
    ensures
        exists|timestamp: Seq<char>|
            r@ == #[trigger] write_action(
                file_handles@,
                channel_name@,
                record_text(priv_msg_record(sender@, message@, tags)),
                timestamp,
            ),
{
    let priv_msg = LogRecord::PrivateMessage {
        sender: sender.to_owned(),
        message: message.clone(),
        tags: tags_to_map(tags),
    };
    file_handles.write_to_log(channel_name, priv_msg.serialize())
}

/// Logs that a chat was cleared. `value` holds the channel alone, or the
/// channel and the user whose messages were cleared; with any other number
/// of parameters the event is refused.
pub fn handle_clear_chat(
    file_handles: &FileHandleManager,
    value: &[String],
    tags: Option<Vec<Tag>>,
) -> (r: Result<Action, EventError>)
    ensures
        r is Ok <==> (value@.len() == 1 || value@.len() == 2),
        r is Err ==> r->Err_0@ == malformed("CLEARCHAT"@, texts(value@)),
        exists|timestamp: Seq<char>|
            outcome(r) == #[trigger] attempted(
                file_handles@,
                clear_chat_target(texts(value@), tags),
                timestamp,
            ),
{
    if value.len() == 1 {
        let record = LogRecord::ClearChat { tags: tags_to_map(tags), user: None };
        let action = file_handles.write_to_log(&value[0], record.serialize());
        proof {
            let timestamp = choose|timestamp: Seq<char>|
                action@ == #[trigger] write_action(
                    file_handles@,
                    value@[0]@,
                    record_text(record@),
                    timestamp,
                );
            assert(outcome(Ok(action)) == attempted(
                file_handles@,
                clear_chat_target(texts(value@), tags),
                timestamp,
            ));
        }
        Ok(action)
    } else if value.len() == 2 {
        let record = LogRecord::ClearChat { tags: tags_to_map(tags), user: Some(value[1].clone()) };
        let action = file_handles.write_to_log(&value[0], record.serialize());
        proof {
            let timestamp = choose|timestamp: Seq<char>|
                action@ == #[trigger] write_action(
                    file_handles@,
                    value@[0]@,
                    record_text(record@),
                    timestamp,
                );
            assert(outcome(Ok(action)) == attempted(
                file_handles@,
                clear_chat_target(texts(value@), tags),
                timestamp,
            ));
        }
        Ok(action)
    } else {
        let e = EventError::Malformed {
            command: String::from_str("CLEARCHAT"),
            params: copy_strings(value),
        };
        // A refusal is the same at every time.
        assert(outcome(Err(e)) == attempted(
            file_handles@,
            clear_chat_target(texts(value@), tags),
            Seq::empty(),
        ));
        Err(e)
    }
}

/// Logs that a message was removed. `value` holds the channel and the
/// message; with any other number of parameters the event is refused.
pub fn handle_clear_msg(
    file_handles: &FileHandleManager,
    value: &[String],
    tags: Option<Vec<Tag>>,
) -> (r: Result<Action, EventError>)
    ensures
        r is Ok <==> value@.len() == 2,
        r is Err ==> r->Err_0@ == malformed("CLEARMSG"@, texts(value@)),
        exists|timestamp: Seq<char>|
            outcome(r) == #[trigger] attempted(
                file_handles@,
                clear_msg_target(texts(value@), tags),
                timestamp,
            ),
{
    if value.len() == 2 {
        let record = LogRecord::ClearMessage {
            message_id: value[1].clone(),
            tags: tags_to_map(tags),
        };
        let action = file_handles.write_to_log(&value[0], record.serialize());
        proof {
            let timestamp = choose|timestamp: Seq<char>|
                action@ == #[trigger] write_action(
                    file_handles@,
                    value@[0]@,
                    record_text(record@),
                    timestamp,
                );
            assert(outcome(Ok(action)) == attempted(
                file_handles@,
                clear_msg_target(texts(value@), tags),
                timestamp,
            ));
        }
        Ok(action)
    } else {
        let e = EventError::Malformed {
            command: String::from_str("CLEARMSG"),
            params: copy_strings(value),
        };
        // A refusal is the same at every time.
        assert(outcome(Err(e)) == attempted(
            file_handles@,
            clear_msg_target(texts(value@), tags),
            Seq::empty(),
        ));
        Err(e)
    }
}

/// Logs a notice of the server under the name of its command. The first
/// parameter is the channel.
pub fn handle_notice(
    file_handles: &FileHandleManager,
    command: &String,
    value: &[String],
    tags: Option<Vec<Tag>>,
) -> (r: Action)
    requires
        value@.len() >= 1,
    ensures
        exists|timestamp: Seq<char>|
            r@ == #[trigger] write_action(
                file_handles@,
                value@[0]@,
                record_text(notice_record(command@, tags)),
                timestamp,
            ),
{
    let record = LogRecord::Notice { command_name: command.clone(), tags: tags_to_map(tags) };
    file_handles.write_to_log(&value[0], record.serialize())
}

/// Handles what the transport delivered: logs the event where its command
/// is one that is logged, prints a diagnostic for any other event, and
/// refuses a malformed event and a failure of the transport.
pub fn handle_irc_event(
    file_handles: &FileHandleManager,
    irc_event: Result<Message, TransportError>,
) -> (r: Result<Action, EventError>)
    ensures
        exists|timestamp: Seq<char>|
            outcome(r) == #[trigger] dispatched(file_handles@, irc_event, timestamp),
{
    let message = match irc_event {
        Ok(message) => message,
        Err(e) => {
            let e = EventError::Transport(e.description);
            // A failure is the same at every time.
            assert(outcome(Err(e)) == dispatched(file_handles@, irc_event, Seq::empty()));
            return Err(e);
        },
    };
    let sender = match message.source_nickname() {
        Some(name) => name.to_owned(),
        None => String::from_str("???"),
    };
    let ghost handles = file_handles@;
    let Message { tags, prefix, command } = message;
    match &command {
        Command::PRIVMSG(channel_name, msg) => {
            let action = handle_priv_msg(file_handles, sender.as_str(), channel_name, msg, tags);
            proof {
                let timestamp = choose|timestamp: Seq<char>|
                    action@ == #[trigger] write_action(
                        handles,
                        channel_name@,
                        record_text(priv_msg_record(sender@, msg@, tags)),
                        timestamp,
                    );
                assert(outcome(Ok(action)) == dispatched(handles, irc_event, timestamp));
            }
            Ok(action)
        },
        Command::Raw(name, value) => {
            if str_equal(name.as_str(), "PRIVMSG") && value.len() == 2 {
                let action = handle_priv_msg(
                    file_handles,
                    sender.as_str(),
                    &value[0],
                    &value[1],
                    tags,
                );
                proof {
                    let timestamp = choose|timestamp: Seq<char>|
                        action@ == #[trigger] write_action(
                            handles,
                            value@[0]@,
                            record_text(priv_msg_record(sender@, value@[1]@, tags)),
                            timestamp,
                        );
                    assert(outcome(Ok(action)) == dispatched(handles, irc_event, timestamp));
                }
                Ok(action)
            } else if str_equal(name.as_str(), "CLEARCHAT") {
                let r = handle_clear_chat(file_handles, value.as_slice(), tags);
                proof {
                    let timestamp = choose|timestamp: Seq<char>|
                        outcome(r) == #[trigger] attempted(
                            handles,
                            clear_chat_target(texts(value@), tags),
                            timestamp,
                        );
                    assert(outcome(r) == dispatched(handles, irc_event, timestamp));
                }
                r
            } else if str_equal(name.as_str(), "CLEARMSG") {
                let r = handle_clear_msg(file_handles, value.as_slice(), tags);
                proof {
                    let timestamp = choose|timestamp: Seq<char>|
                        outcome(r) == #[trigger] attempted(
                            handles,
                            clear_msg_target(texts(value@), tags),
                            timestamp,
                        );
                    assert(outcome(r) == dispatched(handles, irc_event, timestamp));
                }
                r
            } else if (str_equal(name.as_str(), "ROOMSTATE") || str_equal(
                name.as_str(),
                "USERNOTICE",
            )) && value.len() >= 1 {
                let action = handle_notice(file_handles, name, value.as_slice(), tags);
                proof {
                    let timestamp = choose|timestamp: Seq<char>|
                        action@ == #[trigger] write_action(
                            handles,
                            value@[0]@,
                            record_text(notice_record(name@, tags)),
                            timestamp,
                        );
                    assert(outcome(Ok(action)) == dispatched(handles, irc_event, timestamp));
                }
                Ok(action)
            } else {
                let action = Action::Print { text: describe(&command, &prefix, &tags) };
                // A diagnostic is the same at every time.
                assert(outcome(Ok(action)) == dispatched(handles, irc_event, Seq::empty()));
                Ok(action)
            }
        },
        Command::Other(_) => {
            let action = Action::Print { text: describe(&command, &prefix, &tags) };
            assert(outcome(Ok(action)) == dispatched(handles, irc_event, Seq::empty()));
            Ok(action)
        },
    }
}

/// A copy of `v`, string by string.
fn copy_strings(v: &[String]) -> (r: Vec<String>)
    ensures
        texts(r@) == texts(v@),
{
    let mut out: Vec<String> = Vec::new();
    let mut i: usize = 0;
    while i < v.len()
        invariant
            i <= v.len(),
            texts(out@) == texts(v@).take(i as int),
        decreases v.len() - i,
    {
        let ghost before = out@;
        out.push(v[i].clone());
        proof {
            assert(texts(out@) =~= texts(before).push(v@[i as int]@));
        }
        i += 1;
    }
    out
}

} // verus!

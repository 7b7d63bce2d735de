//! Decoded protocol events, and how one is described in a diagnostic.

use vstd::prelude::*;
use crate::tags::{pairs_map, tag_map_debug_text, tag_map_of, tag_pairs, Tag};
use crate::text::{debug_quoted, join, joined, str_debug_text, texts};

verus! {

/// Where an event comes from.
#[derive(Debug, Clone, PartialEq, Eq)]
pub enum Prefix {
    /// A server, by its name.
    ServerName(String),
    /// A user, by nickname, user name and host name; any of them may be empty.
    Nickname(String, String, String),
}

/// The command of an event.
#[derive(Debug, Clone, PartialEq, Eq)]
pub enum Command {
    /// A message to a target: target, then text.
    PRIVMSG(String, String),
    /// A command that the transport hands on as it came: name, then
    /// parameters.
    Raw(String, Vec<String>),
    /// Any other command, as the text that describes it.
    Other(String),
}

/// A decoded event: its tags, where it comes from, and its command.
#[derive(Debug, Clone, PartialEq, Eq)]
pub struct Message {
    pub tags: Option<Vec<Tag>>,
    pub prefix: Option<Prefix>,
    pub command: Command,
}

/// The name of a command and its parameters, where it has them.
pub open spec fn named(command: Command) -> Option<(Seq<char>, Seq<Seq<char>>)> {
    match command {
        Command::PRIVMSG(target, text) => Some(("PRIVMSG"@, seq![target@, text@])),
        Command::Raw(name, params) => Some((name@, texts(params@))),
        Command::Other(_) => None,
    }
}

/// The nickname of the user an event comes from, if it comes from a user.
pub open spec fn nickname(prefix: Option<Prefix>) -> Option<Seq<char>> {
    match prefix {
        Some(Prefix::Nickname(name, _, _)) => Some(name@),
        _ => None,
    }
}

/// The sender of an event as it is logged: the nickname, or `???` where the
/// event does not come from a user.
pub open spec fn sender_text(prefix: Option<Prefix>) -> Seq<char> {
    match nickname(prefix) {
        Some(name) => name,
        None => "???"@,
    }
}

/// `name`, then `fields` in round brackets with `, ` between them.
pub open spec fn tuple_text(name: Seq<char>, fields: Seq<Seq<char>>) -> Seq<char> {
    name + "("@ + joined(fields, ", "@) + ")"@
}

/// `items` in square brackets with `, ` between them.
pub open spec fn list_text(items: Seq<Seq<char>>) -> Seq<char> {
    "["@ + joined(items, ", "@) + "]"@
}

/// Each string as a Rust string literal.
pub open spec fn debug_texts(items: Seq<Seq<char>>) -> Seq<Seq<char>> {
    Seq::new(items.len(), |i: int| str_debug_text(items[i]))
}

/// A command as a diagnostic shows it.
pub open spec fn command_text(command: Command) -> Seq<char> {
    match command {
        Command::PRIVMSG(target, text) => tuple_text(
            "PRIVMSG"@,
            seq![str_debug_text(target@), str_debug_text(text@)],
        ),
        Command::Raw(name, params) => tuple_text(
            "Raw"@,
            seq![str_debug_text(name@), list_text(debug_texts(texts(params@)))],
        ),
        Command::Other(description) => description@,
    }
}

/// A prefix as a diagnostic shows it.
pub open spec fn prefix_text(prefix: Prefix) -> Seq<char> {
    match prefix {
        Prefix::ServerName(name) => tuple_text("ServerName"@, seq![str_debug_text(name@)]),
        Prefix::Nickname(name, user, host) => tuple_text(
            "Nickname"@,
            seq![str_debug_text(name@), str_debug_text(user@), str_debug_text(host@)],
        ),
    }
}

/// A diagnostic from its parts as they are to appear: the command, then,
/// where the event has a prefix, `from` and the prefix, then the tag map.
pub open spec fn framed_diagnostic(
    command: Seq<char>,
    prefix: Option<Seq<char>>,
    tags: Seq<char>,
) -> Seq<char> {
    match prefix {
        Some(p) => command + " "@ + "from "@ + p + " "@ + tags,
        None => command + " "@ + tags,
    }
}

/// The diagnostic for an event that is not logged: its command, where it
/// comes from, and its tag map.
pub open spec fn diagnostic_text(
    command: Command,
    prefix: Option<Prefix>,
    tags: Option<Vec<Tag>>,
) -> Seq<char> {
    framed_diagnostic(
        command_text(command),
        match prefix {
            Some(p) => Some(prefix_text(p)),
            None => None,
        },
        tag_map_debug_text(pairs_map(tag_pairs(tags))),
    )
}

/// `name`, then `fields` in round brackets with `, ` between them.
pub fn write_tuple(name: &str, fields: &Vec<String>) -> (r: String)
    ensures
        r@ == tuple_text(name@, texts(fields@)),
{
    let mut out = String::from_str(name);
    out.append("(");
    out.append(join(fields, ", ").as_str());
    out.append(")");
    out
}

/// `items` in square brackets with `, ` between them.
pub fn write_list(items: &Vec<String>) -> (r: String)
    ensures
        r@ == list_text(texts(items@)),
{
    let mut out = String::from_str("[");
    out.append(join(items, ", ").as_str());
    out.append("]");
    out
}

/// Each string as a Rust string literal.
fn debug_quoted_all(items: &Vec<String>) -> (r: Vec<String>)
    ensures
        texts(r@) == debug_texts(texts(items@)),
{
    let mut out: Vec<String> = Vec::new();
    let mut i: usize = 0;
    while i < items.len()
        invariant
            i <= items.len(),
            texts(out@) == debug_texts(texts(items@)).take(i as int),
        decreases items.len() - i,
    {
        let ghost before = out@;
        out.push(debug_quoted(items[i].as_str()));
        proof {
            let all = debug_texts(texts(items@));
            assert(texts(out@) =~= texts(before).push(all[i as int]));
        }
        i += 1;
    }
    out
}

/// A command as a diagnostic shows it.
pub fn describe_command(command: &Command) -> (r: String)
    ensures
        r@ == command_text(*command),
{
    match command {
        Command::PRIVMSG(target, text) => {
            let mut fields: Vec<String> = Vec::new();
            fields.push(debug_quoted(target.as_str()));
            fields.push(debug_quoted(text.as_str()));
            assert(texts(fields@) =~= seq![str_debug_text(target@), str_debug_text(text@)]);
            write_tuple("PRIVMSG", &fields)
        },
        Command::Raw(name, params) => {
            let list = write_list(&debug_quoted_all(params));
            let mut fields: Vec<String> = Vec::new();
            fields.push(debug_quoted(name.as_str()));
            fields.push(list);
            assert(texts(fields@) =~= seq![
                str_debug_text(name@),
                list_text(debug_texts(texts(params@))),
            ]);
            write_tuple("Raw", &fields)
        },
        Command::Other(description) => description.clone(),
    }
}

/// A prefix as a diagnostic shows it.
pub fn describe_prefix(prefix: &Prefix) -> (r: String)
    ensures
        r@ == prefix_text(*prefix),
{
    match prefix {
        Prefix::ServerName(name) => {
            let mut fields: Vec<String> = Vec::new();
            fields.push(debug_quoted(name.as_str()));
            write_tuple("ServerName", &fields)
        },
        Prefix::Nickname(name, user, host) => {
            let mut fields: Vec<String> = Vec::new();
            fields.push(debug_quoted(name.as_str()));
            fields.push(debug_quoted(user.as_str()));
            fields.push(debug_quoted(host.as_str()));
            assert(texts(fields@) =~= seq![
                str_debug_text(name@),
                str_debug_text(user@),
                str_debug_text(host@),
            ]);
            write_tuple("Nickname", &fields)
        },
    }
}

/// Writes a diagnostic from its parts as they are to appear.
pub fn write_diagnostic(command: &str, prefix: Option<&str>, tags: &str) -> (r: String)
    ensures
        r@ == framed_diagnostic(
            command@,
            match prefix {
                Some(p) => Some(p@),
                None => None,
            },
            tags@,
        ),
{
    let mut out = String::from_str(command);
    out.append(" ");
    if let Some(p) = prefix {
        out.append("from ");
        out.append(p);
        out.append(" ");
    }
    out.append(tags);
    out
}

/// The diagnostic for an event with these parts.
pub fn describe(command: &Command, prefix: &Option<Prefix>, tags: &Option<Vec<Tag>>) -> (r:
    String)
    ensures
        r@ == diagnostic_text(*command, *prefix, *tags),
{
    let command = describe_command(command);
    let tags = tag_map_of(tags).to_debug();
    match prefix {
        Some(p) => {
            let prefix = describe_prefix(p);
            write_diagnostic(command.as_str(), Some(prefix.as_str()), tags.as_str())
        },
        None => write_diagnostic(command.as_str(), None, tags.as_str()),
    }
}

impl Message {
    /// The nickname of the user the event comes from, if it comes from a
    /// user.
    pub fn source_nickname(&self) -> (r: Option<&str>)
        ensures
            match r {
                Some(name) => nickname(self.prefix) == Some(name@),
                None => nickname(self.prefix) is None,
            },
    {
        match &self.prefix {
            Some(Prefix::Nickname(name, _, _)) => Some(name.as_str()),
            _ => None,
        }
    }
}

/// The diagnostic for an event that is not logged: its command, where it
/// comes from if that is known, and its tag map.
pub fn print_message(message: &Message) -> (r: String)
    ensures
        r@ == diagnostic_text(message.command, message.prefix, message.tags),
{
    describe(&message.command, &message.prefix, &message.tags)
}

} // verus!

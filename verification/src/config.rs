//! Configuration, and the table of open log files that is made from it.

use vstd::prelude::*;
use crate::channel::{all_valid, is_first_invalid, normalize_channels, normalized, rejects};
use crate::text::{debug_quoted, str_debug_text, str_equal, texts};

verus! {

/// The configuration as it is read: the channels to follow, by their
/// configured names, and the directory that holds the log files.
#[derive(Debug, Clone, PartialEq, Eq)]
pub struct GhostConfig {
    pub channels: Vec<String>,
    pub log_path: String,
}

/// Why a configuration could not be put into effect.
#[derive(Debug, Clone, PartialEq, Eq)]
pub enum ConfigError {
    /// The configuration file could not be read.
    Unreadable(String),
    /// The configuration file is not a configuration.
    Unparseable(String),
    /// A channel name is empty or holds a character that is neither an ASCII
    /// letter, an ASCII digit nor an underscore.
    InvalidChannelName(String),
    /// The log directory could not be created.
    LogDirectory(String),
}

impl ConfigError {
    /// The error in words.
    pub fn message(&self) -> (r: String)
        ensures
            r@ == match *self {
                ConfigError::Unreadable(detail) => "read config.ron: "@ + detail@,
                ConfigError::Unparseable(detail) => "parse config: "@ + detail@,
                ConfigError::InvalidChannelName(name) => "Invalid channel name: "@ + name@,
                ConfigError::LogDirectory(detail) => "create log directory: "@ + detail@,
            },
    {
        match self {
            ConfigError::Unreadable(detail) => {
                String::from_str("read config.ron: ").concat(detail.as_str())
            },
            ConfigError::Unparseable(detail) => {
                String::from_str("parse config: ").concat(detail.as_str())
            },
            ConfigError::InvalidChannelName(name) => {
                String::from_str("Invalid channel name: ").concat(name.as_str())
            },
            ConfigError::LogDirectory(detail) => {
                String::from_str("create log directory: ").concat(detail.as_str())
            },
        }
    }
}

/// What the event loop is to do next.
#[derive(Debug, Clone, PartialEq, Eq)]
pub enum Action {
    /// Append `text` to the log file that stands under `handle`.
    Append { handle: usize, text: String },
    /// Report `text` as a warning; nothing is written to any file.
    Warn { text: String },
    /// Print `text`; nothing is written to any file.
    Print { text: String },
}

/// An [`Action`] as plain values.
pub enum ActionView {
    Append { handle: int, text: Seq<char> },
    Warn { text: Seq<char> },
    Print { text: Seq<char> },
}

impl View for Action {
    type V = ActionView;

    open spec fn view(&self) -> ActionView {
        match *self {
            Action::Append { handle, text } => ActionView::Append {
                handle: handle as int,
                text: text@,
            },
            Action::Warn { text } => ActionView::Warn { text: text@ },
            Action::Print { text } => ActionView::Print { text: text@ },
        }
    }
}

/// A log file to open for appending, and the line to write to it first.
#[derive(Debug, Clone, PartialEq, Eq)]
pub struct LogFileOpening {
    pub path: String,
    pub first_line: String,
}

/// `names` without repetitions: each name where it first occurs.
pub open spec fn distinct(names: Seq<Seq<char>>) -> Seq<Seq<char>>
    decreases names.len(),
{
    if names.len() == 0 {
        Seq::empty()
    } else {
        let before = distinct(names.drop_last());
        if before.contains(names.last()) {
            before
        } else {
            before.push(names.last())
        }
    }
}

/// The path of the log file of `channel`.
pub open spec fn log_file_path(channel: Seq<char>) -> Seq<char> {
    "logs/"@ + channel + ".txt"@
}

/// The line that marks the start of a session in a log file.
pub open spec fn session_marker(timestamp: Seq<char>) -> Seq<char> {
    "// File opened at "@ + timestamp + "\n"@
}

/// A record as it is appended to a log file: the record, its time, and a
/// line end.
pub open spec fn log_line(line: Seq<char>, timestamp: Seq<char>) -> Seq<char> {
    line + " // "@ + timestamp + "\n"@
}

/// The warning for a record whose channel has no open log file; `quoted` is
/// the record as a Rust string literal.
pub open spec fn missing_file_text(channel: Seq<char>, quoted: Seq<char>) -> Seq<char> {
    "No file opened for "@ + channel + ", would have logged:\n"@ + quoted
}

/// What is done with the record `line` for `channel` at time `timestamp`
/// when the open log files are those of `handles`: it is appended to the
/// file of that channel, or, where the channel has none, reported and
/// written nowhere.
pub open spec fn write_action(
    handles: Seq<Seq<char>>,
    channel: Seq<char>,
    line: Seq<char>,
    timestamp: Seq<char>,
) -> ActionView {
    if handles.contains(channel) {
        ActionView::Append { handle: handles.index_of(channel), text: log_line(line, timestamp) }
    } else {
        ActionView::Warn { text: missing_file_text(channel, str_debug_text(line)) }
    }
}

/// The openings of the log files of `handles`, each with the session marker
/// of `timestamp`.
pub open spec fn planned_openings(handles: Seq<Seq<char>>, timestamp: Seq<char>) -> Seq<
    (Seq<char>, Seq<char>),
> {
    Seq::new(handles.len(), |i: int| (log_file_path(handles[i]), session_marker(timestamp)))
}

/// A sequence of openings as plain values: path and first line of each.
pub open spec fn openings_view(openings: Seq<LogFileOpening>) -> Seq<(Seq<char>, Seq<char>)> {
    Seq::new(openings.len(), |i: int| (openings[i].path@, openings[i].first_line@))
}

/// Whether `action` appends `text` to the log file of `channel`, and to no
/// other: `channel` stands under its handle, and under no other handle.
pub open spec fn appends_to(
    action: ActionView,
    handles: Seq<Seq<char>>,
    channel: Seq<char>,
    text: Seq<char>,
) -> bool {
    &&& action matches ActionView::Append { handle, text: appended }
    &&& 0 <= handle < handles.len()
    &&& handles[handle] == channel
    &&& forall|other: int|
        0 <= other < handles.len() && #[trigger] handles[other] == channel ==> other == handle
    &&& appended == text
}

/// Every record goes to the log file of its own channel or to none. Where
/// the channel has an open log file, the record is appended, with its time,
/// under the one handle of that channel; where it has none, a warning is
/// given and nothing is written.
pub proof fn lemma_write_target(
    handles: Seq<Seq<char>>,
    channel: Seq<char>,
    line: Seq<char>,
    timestamp: Seq<char>,
)
    requires
        handles.no_duplicates(),
    ensures
        handles.contains(channel) ==> appends_to(
            write_action(handles, channel, line, timestamp),
            handles,
            channel,
            log_line(line, timestamp),
        ),
        !handles.contains(channel) ==> write_action(handles, channel, line, timestamp) is Warn,
{
}

/// `distinct` keeps every name and repeats none.
pub proof fn lemma_distinct(names: Seq<Seq<char>>)
    ensures
        distinct(names).no_duplicates(),
        forall|name: Seq<char>| #[trigger] distinct(names).contains(name) <==> names.contains(name),
    decreases names.len(),
{
    if names.len() > 0 {
        let init = names.drop_last();
        let last = names.last();
        lemma_distinct(init);
        let before = distinct(init);
        assert forall|name: Seq<char>| #[trigger]
            distinct(names).contains(name) <==> names.contains(name) by {
            if distinct(names).contains(name) {
                if before.contains(name) {
                    assert(init.contains(name));
                    let i = choose|i: int| 0 <= i < init.len() && init[i] == name;
                    assert(names[i] == name);
                } else {
                    let i = choose|i: int|
                        0 <= i < distinct(names).len() && distinct(names)[i] == name;
                    if i < before.len() {
                        assert(before[i] == name);
                    }
                    assert(name == last);
                    assert(names[names.len() - 1] == name);
                }
            }
            if names.contains(name) {
                let i = choose|i: int| 0 <= i < names.len() && names[i] == name;
                if i < init.len() {
                    assert(init[i] == name);
                    assert(before.contains(name));
                    let j = choose|j: int| 0 <= j < before.len() && before[j] == name;
                    assert(distinct(names)[j] == name);
                } else if before.contains(last) {
                } else {
                    assert(distinct(names)[before.len() as int] == name);
                }
            }
        }
    }
}

/// The table of open log files: which channels have one, and under which
/// handle. No channel stands in it twice.
#[derive(Debug, PartialEq, Eq)]
pub struct FileHandleManager {
    channels: Vec<String>,
}

impl View for FileHandleManager {
    type V = Seq<Seq<char>>;

    /// The channel of each handle, in the order of the handles.
    closed spec fn view(&self) -> Seq<Seq<char>> {
        texts(self.channels@)
    }
}

impl FileHandleManager {
    /// The invariant of the type: no channel has two handles.
    #[verifier::type_invariant]
    pub open spec fn wf(&self) -> bool {
        self@.no_duplicates()
    }

    /// The table for `irc_channels`: one handle for each channel, in the
    /// order in which the channels first occur.
    pub fn new(irc_channels: &[String]) -> (r: FileHandleManager)
        ensures
            r@ == distinct(texts(irc_channels@)),
    {
        let mut channels: Vec<String> = Vec::new();
        let mut i: usize = 0;
        while i < irc_channels.len()
            invariant
                i <= irc_channels.len(),
                texts(channels@) == distinct(texts(irc_channels@).take(i as int)),
            decreases irc_channels.len() - i,
        {
            proof {
                let all = texts(irc_channels@);
                assert(all.take(i + 1).drop_last() =~= all.take(i as int));
            }
            match find(&channels, irc_channels[i].as_str()) {
                None => {
                    channels.push(irc_channels[i].clone());
                },
                Some(at) => {
                    assert(texts(channels@)[at as int] == irc_channels@[i as int]@);
                },
            }
            i += 1;
        }
        proof {
            assert(texts(irc_channels@).take(irc_channels.len() as int) =~= texts(irc_channels@));
            lemma_distinct(texts(irc_channels@));
        }
        FileHandleManager { channels }
    }

    /// The number of handles.
    pub fn len(&self) -> (n: usize)
        ensures
            n == self@.len(),
    {
        self.channels.len()
    }

    /// The handle of the log file of `channel`, if it has one.
    pub fn handle_of(&self, channel: &str) -> (r: Option<usize>)
        ensures
            match r {
                Some(handle) => self@.contains(channel@) && handle == self@.index_of(channel@),
                None => !self@.contains(channel@),
            },
    {
        proof {
            use_type_invariant(self);
        }
        let r = find(&self.channels, channel);
        proof {
            if let Some(handle) = r {
                assert(self@[handle as int] == channel@);
            }
        }
        r
    }

    /// The channel whose log file stands under `handle`.
    pub fn channel_of(&self, handle: usize) -> (r: Option<&String>)
        ensures
            match r {
                Some(channel) => handle < self@.len() && channel@ == self@[handle as int],
                None => handle >= self@.len(),
            },
    {
        if handle < self.channels.len() {
            Some(&self.channels[handle])
        } else {
            None
        }
    }

    /// What is done with the record `line` for `channel_name` at the time
    /// `timestamp`: the line that is appended to the log file of the
    /// channel, or, where the channel has no log file, the warning that
    /// stands for it, with nothing written.
    pub fn write_to_log_at(&self, channel_name: &String, line: String, timestamp: &str) -> (r:
        Action)
        ensures
            r@ == write_action(self@, channel_name@, line@, timestamp@),
    {
        match self.handle_of(channel_name.as_str()) {
            Some(handle) => {
                let mut text = line;
                text.append(" // ");
                text.append(timestamp);
                text.append("\n");
                Action::Append { handle, text }
            },
            None => {
                let quoted = debug_quoted(line.as_str());
                Action::Warn { text: missing_file_warning(channel_name.as_str(), quoted.as_str()) }
            },
        }
    }

    /// What is done with the record `line` for `channel_name` now: as
    /// [`FileHandleManager::write_to_log_at`], at the local time of the
    /// call.
    pub fn write_to_log(&self, channel_name: &String, line: String) -> (r: Action)
        ensures
            r is Append <==> self@.contains(channel_name@),
            r is Warn <==> !self@.contains(channel_name@),
            exists|timestamp: Seq<char>|
                r@ == #[trigger] write_action(self@, channel_name@, line@, timestamp),
    {
        let timestamp = local_timestamp();
        let r = self.write_to_log_at(channel_name, line, timestamp.as_str());
        r
    }
}

/// The path of the log file of `channel`.
pub fn log_file_name(channel: &str) -> (r: String)
    ensures
        r@ == log_file_path(channel@),
{
    let mut path = String::from_str("logs/");
    path.append(channel);
    path.append(".txt");
    path
}

/// The line that marks the start of a session in a log file.
pub fn session_marker_line(timestamp: &str) -> (r: String)
    ensures
        r@ == session_marker(timestamp@),
{
    let mut line = String::from_str("// File opened at ");
    line.append(timestamp);
    line.append("\n");
    line
}

/// The table of open log files for `irc_channels`, and for each of its
/// handles, in their order, the file to open and the session marker of
/// `startup_time` to write to it first.
pub fn open_log_files_at(irc_channels: &[String], startup_time: &str) -> (r: (
    FileHandleManager,
    Vec<LogFileOpening>,
))
    ensures
        r.0@ == distinct(texts(irc_channels@)),
        openings_view(r.1@) == planned_openings(r.0@, startup_time@),
{
    let manager = FileHandleManager::new(irc_channels);
    let mut openings: Vec<LogFileOpening> = Vec::new();
    let mut i: usize = 0;
    while i < manager.len()
        invariant
            i <= manager@.len(),
            openings_view(openings@) == planned_openings(manager@, startup_time@).take(i as int),
        decreases manager@.len() - i,
    {
        let ghost before = openings@;
        match manager.channel_of(i) {
            Some(channel) => {
                openings.push(
                    LogFileOpening {
                        path: log_file_name(channel.as_str()),
                        first_line: session_marker_line(startup_time),
                    },
                );
            },
            None => {},
        }
        proof {
            let all = planned_openings(manager@, startup_time@);
            assert(openings_view(openings@) =~= openings_view(before).push(all[i as int]));
        }
        i += 1;
    }
    (manager, openings)
}

/// The table of open log files for `irc_channels`, and for each of its
/// handles the file to open and the session marker to write to it first:
/// as [`open_log_files_at`], at the local time of the call.
pub fn open_log_files(irc_channels: &[String]) -> (r: (FileHandleManager, Vec<LogFileOpening>))
    ensures
        r.0@ == distinct(texts(irc_channels@)),
        exists|startup_time: Seq<char>|
            openings_view(r.1@) == #[trigger] planned_openings(r.0@, startup_time),
{
    let startup_time = local_timestamp();
    let r = open_log_files_at(irc_channels, startup_time.as_str());
    r
}

/// Puts a configuration into effect: the channels to join, which are the
/// configured names in their joined form, the table of their log files, and
/// the files to open. A configuration with a channel name that is not
/// acceptable is refused with the error that names the first such name.
pub fn load_config(ghost_config: &GhostConfig) -> (r: Result<
    (Vec<String>, FileHandleManager, Vec<LogFileOpening>),
    ConfigError,
>)
    ensures
        match r {
            Ok(loaded) => {
                &&& all_valid(texts(ghost_config.channels@))
                &&& texts(loaded.0@) == texts(ghost_config.channels@).map_values(
                    |n: Seq<char>| normalized(n),
                )
                &&& loaded.1@ == distinct(texts(loaded.0@))
                &&& exists|startup_time: Seq<char>|
                    openings_view(loaded.2@) == #[trigger] planned_openings(loaded.1@, startup_time)
            },
            Err(e) => exists|i: int|
                is_first_invalid(texts(ghost_config.channels@), i) && rejects(
                    e,
                    #[trigger] texts(ghost_config.channels@)[i],
                ),
        },
{
    match normalize_channels(&ghost_config.channels) {
        Ok(irc_channels) => {
            let (file_handles, openings) = open_log_files(irc_channels.as_slice());
            Ok((irc_channels, file_handles, openings))
        },
        Err(e) => Err(e),
    }
}

/// The local time of the call as an RFC 3339 string
/// (`chrono::Local::now`, then `DateTime::to_rfc3339`). Nothing is claimed
/// of the text: it depends on the clock and the time zone of the machine.
#[verifier::external_body]
fn local_timestamp() -> String {
    chrono::Local::now().to_rfc3339()
}

/// The first place in `names` at which `name` stands.
fn find(names: &Vec<String>, name: &str) -> (r: Option<usize>)
    ensures
        match r {
            Some(i) => i < names@.len() && names@[i as int]@ == name@,
            None => !texts(names@).contains(name@),
        },
{
    let mut i: usize = 0;
    while i < names.len()
        invariant
            i <= names.len(),
            forall|j: int| 0 <= j < i ==> names@[j]@ != name@,
        decreases names.len() - i,
    {
        if str_equal(names[i].as_str(), name) {
            return Some(i);
        }
        i += 1;
    }
    None
}

/// The warning for a record whose channel has no open log file; `quoted` is
/// the record as a Rust string literal.
pub fn missing_file_warning(channel: &str, quoted: &str) -> (r: String)
    ensures
        r@ == missing_file_text(channel@, quoted@),
{
    let mut text = String::from_str("No file opened for ");
    text.append(channel);
    text.append(", would have logged:\n");
    text.append(quoted);
    text
}

} // verus!

//! Live reconfiguration: what changes when a new configuration replaces the
//! one in effect, and in which order.

use vstd::prelude::*;
use crate::config::{Action, FileHandleManager};
use crate::handlers::{dispatched, handle_irc_event, outcome, EventError, TransportError};
use crate::message::Message;
use crate::text::{join, joined, str_equal, texts};

verus! {

/// One step of a reload, for the event loop to carry out.
#[derive(Debug, Clone, PartialEq, Eq)]
pub enum ReloadStep {
    /// Leave these channels: their names with `,` between them.
    Part(String),
    /// Put the new log files in place of the old ones, and release the old.
    ReplaceHandles,
    /// Join these channels: their names with `,` between them.
    Join(String),
    /// Print this confirmation.
    Print(String),
}

/// A [`ReloadStep`] as plain values.
pub enum ReloadStepView {
    Part(Seq<char>),
    ReplaceHandles,
    Join(Seq<char>),
    Print(Seq<char>),
}

impl View for ReloadStep {
    type V = ReloadStepView;

    open spec fn view(&self) -> ReloadStepView {
        match *self {
            ReloadStep::Part(channels) => ReloadStepView::Part(channels@),
            ReloadStep::ReplaceHandles => ReloadStepView::ReplaceHandles,
            ReloadStep::Join(channels) => ReloadStepView::Join(channels@),
            ReloadStep::Print(text) => ReloadStepView::Print(text@),
        }
    }
}

/// A sequence of steps as plain values.
pub open spec fn step_views(steps: Seq<ReloadStep>) -> Seq<ReloadStepView> {
    Seq::new(steps.len(), |i: int| steps[i]@)
}

/// The test for a channel that is not among `others`.
pub open spec fn absent_from(others: Seq<Seq<char>>) -> spec_fn(Seq<char>) -> bool {
    |channel: Seq<char>| !others.contains(channel)
}

/// The channels of `channels` that are not among `others`, in their order.
pub open spec fn difference(channels: Seq<Seq<char>>, others: Seq<Seq<char>>) -> Seq<Seq<char>> {
    channels.filter(absent_from(others))
}

/// The steps of a reload from the channels `old` to the channels `new`:
/// leave what is no longer configured, if anything; replace the log files;
/// join what is newly configured, if anything; confirm.
pub open spec fn reload_steps(old: Seq<Seq<char>>, new: Seq<Seq<char>>) -> Seq<ReloadStepView> {
    let removed = difference(old, new);
    let added = difference(new, old);
    let part = if removed.len() > 0 {
        seq![ReloadStepView::Part(joined(removed, ","@))]
    } else {
        Seq::empty()
    };
    let join = if added.len() > 0 {
        seq![ReloadStepView::Join(joined(added, ","@))]
    } else {
        Seq::empty()
    };
    part + seq![ReloadStepView::ReplaceHandles] + join + seq![
        ReloadStepView::Print("Reloaded config."@),
    ]
}

/// What a reload changes: the channels it leaves are those that were
/// joined and are no longer configured, the channels it joins are those
/// that are configured and were not joined, and a channel is configured
/// exactly if it was joined and is not left, or is joined now.
pub proof fn lemma_reload_changes(old: Seq<Seq<char>>, new: Seq<Seq<char>>)
    ensures
        forall|c: Seq<char>| #[trigger]
            difference(old, new).contains(c) <==> old.contains(c) && !new.contains(c),
        forall|c: Seq<char>| #[trigger]
            difference(new, old).contains(c) <==> new.contains(c) && !old.contains(c),
        forall|c: Seq<char>| #[trigger]
            new.contains(c) <==> (old.contains(c) && !difference(old, new).contains(c))
                || difference(new, old).contains(c),
{
    lemma_difference(old, new);
    lemma_difference(new, old);
}

/// The difference holds exactly what is in `channels` and not in `others`.
pub proof fn lemma_difference(channels: Seq<Seq<char>>, others: Seq<Seq<char>>)
    ensures
        forall|c: Seq<char>| #[trigger]
            difference(channels, others).contains(c) <==> channels.contains(c) && !others.contains(
                c,
            ),
{
    let kept = difference(channels, others);
    let test = absent_from(others);
    assert forall|c: Seq<char>| #[trigger]
        kept.contains(c) <==> channels.contains(c) && !others.contains(c) by {
        if kept.contains(c) {
            let i = choose|i: int| 0 <= i < kept.len() && kept[i] == c;
            channels.lemma_filter_pred(test, i);
            channels.lemma_filter_contains_rev(test, c);
        }
        if channels.contains(c) && !others.contains(c) {
            let i = choose|i: int| 0 <= i < channels.len() && channels[i] == c;
            channels.lemma_filter_contains(test, i);
        }
    }
}

/// The channels of `channels` that are not among `others`, in their order.
pub fn channels_not_in(channels: &Vec<String>, others: &Vec<String>) -> (r: Vec<String>)
    ensures
        texts(r@) == difference(texts(channels@), texts(others@)),
{
    let mut out: Vec<String> = Vec::new();
    let mut i: usize = 0;
    while i < channels.len()
        invariant
            i <= channels.len(),
            texts(out@) == difference(texts(channels@).take(i as int), texts(others@)),
        decreases channels.len() - i,
    {
        let found = contains(others, channels[i].as_str());
        proof {
            let all = texts(channels@);
            assert(all.take(i + 1).drop_last() =~= all.take(i as int));
            reveal(Seq::filter);
        }
        if !found {
            out.push(channels[i].clone());
        }
        i += 1;
    }
    proof {
        assert(texts(channels@).take(channels.len() as int) =~= texts(channels@));
    }
    out
}

/// Whether `name` is among `names`.
fn contains(names: &Vec<String>, name: &str) -> (r: bool)
    ensures
        r == texts(names@).contains(name@),
{
    let mut i: usize = 0;
    while i < names.len()
        invariant
            i <= names.len(),
            forall|j: int| 0 <= j < i ==> names@[j]@ != name@,
        decreases names.len() - i,
    {
        if str_equal(names[i].as_str(), name) {
            assert(texts(names@)[i as int] == name@);
            return true;
        }
        i += 1;
    }
    false
}

/// What the event loop keeps between events: the channels that are joined
/// and the table of their log files.
#[derive(Debug, PartialEq, Eq)]
pub struct Session {
    pub irc_channels: Vec<String>,
    pub file_handles: FileHandleManager,
}

impl Session {
    /// Puts a newly loaded configuration in place of the one in effect and
    /// says what the event loop has to do for it, in order. From then on
    /// the session keeps the new channels and the new table of log files,
    /// and nothing of the old ones.
    pub fn reload(
        &mut self,
        new_irc_channels: Vec<String>,
        new_file_handles: FileHandleManager,
    ) -> (steps: Vec<ReloadStep>)
        ensures
            final(self).irc_channels == new_irc_channels,
            final(self).file_handles == new_file_handles,
            step_views(steps@) == reload_steps(
                texts(old(self).irc_channels@),
                texts(new_irc_channels@),
            ),
    {
        let removed_irc_channels = channels_not_in(&self.irc_channels, &new_irc_channels);
        let added_irc_channels = channels_not_in(&new_irc_channels, &self.irc_channels);
        let mut steps: Vec<ReloadStep> = Vec::new();
        if removed_irc_channels.len() > 0 {
            steps.push(ReloadStep::Part(join(&removed_irc_channels, ",")));
        }
        self.file_handles = new_file_handles;
        steps.push(ReloadStep::ReplaceHandles);
        if added_irc_channels.len() > 0 {
            steps.push(ReloadStep::Join(join(&added_irc_channels, ",")));
        }
        self.irc_channels = new_irc_channels;
        steps.push(ReloadStep::Print(String::from_str("Reloaded config.")));
        steps
    }

    /// Handles what the transport delivered, with the log files that are in
    /// effect.
    pub fn handle_irc_event(&self, irc_event: Result<Message, TransportError>) -> (r: Result<
        Action,
        EventError,
    >)
        ensures
            exists|timestamp: Seq<char>|
                outcome(r) == #[trigger] dispatched(self.file_handles@, irc_event, timestamp),
    {
        handle_irc_event(&self.file_handles, irc_event)
    }
}

} // verus!

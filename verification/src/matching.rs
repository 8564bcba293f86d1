//! The rules by which an inbound event is matched against a trigger.

use vstd::prelude::*;
use vstd::string::*;
use crate::text::str_eq;

verus! {

/// Whether a trigger that listens for `events` takes the event `inbound`:
/// the filter holds the wildcard or the event itself. An empty filter takes
/// nothing.
pub open spec fn event_filter_takes(events: Seq<Seq<char>>, inbound: Seq<char>) -> bool {
    exists|i: int| 0 <= i < events.len() && (#[trigger] events[i] == "*"@ || events[i] == inbound)
}

/// Whether a Slack trigger for `trigger_event_type`, watching `channels` or
/// the whole workspace, takes an event of type `event_type` from `channel`.
///
/// The type fits where the trigger listens for `any_event` or for that very
/// type. The scope fits where the trigger watches the whole workspace, or
/// the event's channel is among the trigger's channels, or the event has no
/// channel and the trigger listens for one of the types that never have one.
pub open spec fn slack_trigger_takes(
    trigger_event_type: Seq<char>,
    channels: Seq<Seq<char>>,
    watch_whole_workspace: bool,
    event_type: Seq<char>,
    channel: Option<Seq<char>>,
) -> bool {
    &&& trigger_event_type == "any_event"@ || trigger_event_type == event_type
    &&& watch_whole_workspace || match channel {
        Some(ch) => channels.contains(ch),
        None => trigger_event_type == "user_created"@ || trigger_event_type == "channel_created"@
            || trigger_event_type == "any_event"@,
    }
}

/// A trigger with an empty filter takes no event, not even through the
/// wildcard.
pub proof fn lemma_empty_filter_takes_nothing(inbound: Seq<char>)
    ensures
        !event_filter_takes(Seq::empty(), inbound),
{
}

/// An event without a channel is taken only by a trigger that watches the
/// whole workspace or listens for one of the three kinds of event that
/// never have a channel, and only if the type fits.
pub proof fn lemma_event_without_channel(
    trigger_event_type: Seq<char>,
    channels: Seq<Seq<char>>,
    watch_whole_workspace: bool,
    event_type: Seq<char>,
)
    ensures
        slack_trigger_takes(trigger_event_type, channels, watch_whole_workspace, event_type, None)
            <==> (trigger_event_type == "any_event"@ || trigger_event_type == event_type) && (
        watch_whole_workspace || trigger_event_type == "user_created"@ || trigger_event_type
            == "channel_created"@ || trigger_event_type == "any_event"@),
{
}

/// Whether `list` holds the text `s`.
pub fn contains_text(list: &Vec<String>, s: &str) -> (r: bool)
    ensures
        r == list.deep_view().contains(s@),
{
    let mut i: usize = 0;
    while i < list.len()
        invariant
            i <= list.len(),
            forall|k: int| 0 <= k < i ==> list.deep_view()[k] != s@,
        decreases list.len() - i,
    {
        assert(list.deep_view()[i as int] == list@[i as int]@);
        if str_eq(list[i].as_str(), s) {
            return true;
        }
        i += 1;
    }
    false
}

/// Whether a trigger that listens for `events` takes the event `inbound`.
pub fn event_filter_matches(events: &Vec<String>, inbound: &str) -> (r: bool)
    ensures
        r == event_filter_takes(events.deep_view(), inbound@),
{
    let mut i: usize = 0;
    while i < events.len()
        invariant
            i <= events.len(),
            forall|k: int|
                0 <= k < i ==> !(#[trigger] events.deep_view()[k] == "*"@ || events.deep_view()[k]
                    == inbound@),
        decreases events.len() - i,
    {
        assert(events.deep_view()[i as int] == events@[i as int]@);
        if str_eq(events[i].as_str(), "*") || str_eq(events[i].as_str(), inbound) {
            return true;
        }
        i += 1;
    }
    false
}

/// Whether a Slack trigger takes an event; see `slack_trigger_takes`.
pub fn slack_trigger_matches(
    trigger_event_type: &str,
    channels: &Vec<String>,
    watch_whole_workspace: bool,
    event_type: &str,
    channel: Option<&str>,
) -> (r: bool)
    ensures
        r == slack_trigger_takes(
            trigger_event_type@,
            channels.deep_view(),
            watch_whole_workspace,
            event_type@,
            channel.deep_view(),
        ),
{
    let any = str_eq(trigger_event_type, "any_event");
    if !(any || str_eq(trigger_event_type, event_type)) {
        return false;
    }
    if watch_whole_workspace {
        return true;
    }
    match channel {
        Some(ch) => contains_text(channels, ch),
        None => any || str_eq(trigger_event_type, "user_created") || str_eq(
            trigger_event_type,
            "channel_created",
        ),
    }
}

} // verus!

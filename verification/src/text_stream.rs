//! Collapsing the agent's text events into the reply that the user should see.
//!
//! The agent streams text in pieces and then closes each segment (the run of text before a tool
//! call or before the end of the turn) with a recap that repeats all of it. A recap looks like
//! any other event on arrival. What marks it is that it closes a segment and repeats it word for
//! word, so the latest event is held back until the segment ends and only then compared.

use vstd::prelude::*;
use vstd::string::*;

verus! {

/// The text events of one turn on their way to the user.
#[derive(Debug)]
pub struct TextStream {
    pub segment: String,
    pub pending: Option<String>,
}

/// The state of a text stream: what of the segment has been handed out, and the event that is
/// held back.
pub struct TextState {
    pub segment: Seq<char>,
    pub pending: Option<Seq<char>>,
}

impl TextState {
    /// No segment has begun.
    pub open spec fn fresh() -> TextState {
        TextState { segment: seq![], pending: None }
    }

    /// The state after one more event.
    pub open spec fn pushed(self, text: Seq<char>) -> TextState {
        TextState {
            segment: match self.pending {
                Some(held) => self.segment + held,
                None => self.segment,
            },
            pending: Some(text),
        }
    }

    /// What closing the segment hands out: the event held back, unless it is the recap.
    pub open spec fn closing(self) -> Option<Seq<char>> {
        match self.pending {
            Some(held) if held != self.segment => Some(held),
            _ => None,
        }
    }
}

impl View for TextStream {
    type V = TextState;

    open spec fn view(&self) -> TextState {
        TextState { segment: self.segment@, pending: text_view(self.pending) }
    }
}

/// An optional string as the contracts speak of it.
pub open spec fn text_view(s: Option<String>) -> Option<Seq<char>> {
    match s {
        Some(s) => Some(s@),
        None => None,
    }
}

impl TextStream {
    /// A stream in which no segment has begun.
    pub fn new() -> (stream: TextStream)
        ensures
            stream@ == TextState::fresh(),
    {
        TextStream { segment: String::new(), pending: None }
    }

    /// Takes the next text event and hands out the one held back before.
    pub fn push(&mut self, text: &str) -> (ready: Option<String>)
        ensures
            final(self)@ == old(self)@.pushed(text@),
            text_view(ready) == old(self)@.pending,
    {
        let ready = self.pending.take();
        self.pending = Some(text.to_owned());
        match &ready {
            Some(held) => {
                self.segment.append(held.as_str());
            },
            None => {},
        }
        ready
    }

    /// Closes the segment and hands out the event held back, unless it was the recap.
    pub fn flush(&mut self) -> (ready: Option<String>)
        ensures
            final(self)@ == TextState::fresh(),
            text_view(ready) == old(self)@.closing(),
    {
        let last = self.pending.take();
        let ready = match last {
            Some(held) => if held != self.segment {
                Some(held)
            } else {
                None
            },
            None => None,
        };
        self.segment = String::new();
        ready
    }
}

// What a segment shows
/// Texts one after the other.
pub open spec fn joined(texts: Seq<Seq<char>>) -> Seq<char>
    decreases texts.len(),
{
    if texts.len() == 0 {
        seq![]
    } else {
        joined(texts.drop_last()) + texts.last()
    }
}

/// The text that an optional one adds.
pub open spec fn shown(text: Option<Seq<char>>) -> Seq<char> {
    match text {
        Some(s) => s,
        None => seq![],
    }
}

/// The state of a fresh stream after these events.
pub open spec fn after_events(events: Seq<Seq<char>>) -> TextState
    decreases events.len(),
{
    if events.len() == 0 {
        TextState::fresh()
    } else {
        after_events(events.drop_last()).pushed(events.last())
    }
}

/// What a fresh stream has handed out after these events.
pub open spec fn handed_out(events: Seq<Seq<char>>) -> Seq<char>
    decreases events.len(),
{
    if events.len() == 0 {
        seq![]
    } else {
        handed_out(events.drop_last()) + shown(after_events(events.drop_last()).pending)
    }
}

/// What the user sees of a segment that consists of these events.
pub open spec fn segment_shown(events: Seq<Seq<char>>) -> Seq<char> {
    handed_out(events) + shown(after_events(events).closing())
}

proof fn lemma_events(events: Seq<Seq<char>>)
    requires
        events.len() > 0,
    ensures
        handed_out(events) == joined(events.drop_last()),
        after_events(events).segment == joined(events.drop_last()),
        after_events(events).pending == Some(events.last()),
    decreases events.len(),
{
    let earlier = events.drop_last();
    if earlier.len() > 0 {
        lemma_events(earlier);
    } else {
        assert(handed_out(earlier) == Seq::<char>::empty());
        assert(after_events(earlier) == TextState::fresh());
        assert(handed_out(events) =~= joined(earlier));
    }
}

/// A segment that closes with its recap shows its text once: the recap is dropped.
pub proof fn law_recap_is_dropped(deltas: Seq<Seq<char>>)
    ensures
        segment_shown(deltas.push(joined(deltas))) == joined(deltas),
{
    let events = deltas.push(joined(deltas));
    assert(events.drop_last() =~= deltas);
    lemma_events(events);
    assert(segment_shown(events) =~= joined(deltas));
}

/// A segment whose last event is no recap loses nothing: all its events are shown in order.
pub proof fn law_other_text_is_kept(events: Seq<Seq<char>>)
    requires
        events.len() > 0 ==> events.last() != joined(events.drop_last()),
    ensures
        segment_shown(events) == joined(events),
{
    if events.len() > 0 {
        lemma_events(events);
    }
    assert(segment_shown(events) =~= joined(events));
}

} // verus!

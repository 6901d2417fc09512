use vstd::prelude::*;

use super::types::{StreamEvent, StreamEventView};
use crate::text::{chunks_of, lemma_chunks_rejoin, lemma_chunks_sizes, split_chunks, CHUNK_CHARS};

verus! {

/// A finite stream of events, handed out one at a time in order.
pub struct MessageStream {
    events: Vec<StreamEvent>,
    position: usize,
}

impl View for MessageStream {
    type V = Seq<StreamEventView>;

    /// The events not yet handed out, in order.
    closed spec fn view(&self) -> Seq<StreamEventView> {
        self.events@.skip(self.position as int).map_values(|e: StreamEvent| e@)
    }
}

/// The views of a list of events.
pub open spec fn events_view(events: Seq<StreamEvent>) -> Seq<StreamEventView> {
    events.map_values(|e: StreamEvent| e@)
}

/// One poll of a stream whose waiting events are `rest`: the first of them
/// and the events still waiting after it, or nothing and `rest` unchanged
/// when none is waiting.
pub open spec fn poll_once(rest: Seq<StreamEventView>) -> (Option<StreamEventView>, Seq<StreamEventView>) {
    if rest.len() > 0 {
        (Some(rest[0]), rest.drop_first())
    } else {
        (None, rest)
    }
}

/// The events still waiting after `k` polls of a stream that started with
/// `events` waiting.
pub open spec fn waiting_after(events: Seq<StreamEventView>, k: nat) -> Seq<StreamEventView>
    decreases k,
{
    if k == 0 {
        events
    } else {
        poll_once(waiting_after(events, (k - 1) as nat)).1
    }
}

/// What the poll after `k` earlier polls returns, for a stream that started
/// with `events` waiting.
pub open spec fn nth_poll(events: Seq<StreamEventView>, k: nat) -> Option<StreamEventView> {
    poll_once(waiting_after(events, k)).0
}

/// The view of a polled result.
pub open spec fn polled_view(e: Option<StreamEvent>) -> Option<StreamEventView> {
    match e {
        Some(ev) => Some(ev@),
        None => None,
    }
}

/// Polling a stream hands out its events in order, one per poll, and after
/// the last one nothing, for ever: the `k`-th poll returns the `k`-th event
/// while there is one and nothing afterwards.
pub proof fn lemma_poll_history(events: Seq<StreamEventView>, k: nat)
    ensures
        waiting_after(events, k) == if k <= events.len() {
            events.skip(k as int)
        } else {
            Seq::<StreamEventView>::empty()
        },
        nth_poll(events, k) == if k < events.len() {
            Some(events[k as int])
        } else {
            None::<StreamEventView>
        },
    decreases k,
{
    if k == 0 {
        assert(events.skip(0) =~= events);
    } else {
        lemma_poll_history(events, (k - 1) as nat);
        let prev = waiting_after(events, (k - 1) as nat);
        if k <= events.len() {
            assert(prev.drop_first() =~= events.skip(k as int));
        } else if k - 1 == events.len() {
            assert(prev =~= Seq::<StreamEventView>::empty());
        }
    }
    let w = waiting_after(events, k);
    if k < events.len() {
        assert(w[0] == events[k as int]);
    }
}

impl MessageStream {
    #[verifier::type_invariant]
    spec fn position_in_bounds(self) -> bool {
        self.position <= self.events.len()
    }

    /// A stream that hands out `events` in order.
    pub fn new(events: Vec<StreamEvent>) -> (s: Self)
        ensures
            s@ == events_view(events@),
    {
        let s = MessageStream { events, position: 0 };
        assert(s.events@.skip(0) =~= s.events@);
        s
    }

    /// A stream of the one event `event`.
    pub fn from_single(event: StreamEvent) -> (s: Self)
        ensures
            s@ == seq![event@],
    {
        let mut events: Vec<StreamEvent> = Vec::new();
        events.push(event);
        let s = Self::new(events);
        assert(events_view(seq![event]) =~= seq![event@]);
        s
    }

    /// The next event, or `None` once every event has been handed out.
    pub fn next_event(&mut self) -> (e: Option<StreamEvent>)
        ensures
            old(self)@.len() > 0 ==> (e matches Some(ev) && ev@ == old(self)@[0] && final(self)@
                == old(self)@.drop_first()),
            old(self)@.len() == 0 ==> e is None && final(self)@ == old(self)@,
            polled_view(e) == poll_once(old(self)@).0,
            final(self)@ == poll_once(old(self)@).1,
    {
        proof {
            use_type_invariant(&*self);
        }
        if self.position < self.events.len() {
            let ev = self.events[self.position].duplicate();
            let ghost before = self.events@;
            let ghost p = self.position as int;
            self.position = self.position + 1;
            assert(before.skip(p + 1).map_values(|e: StreamEvent| e@) =~= before.skip(p).map_values(
                |e: StreamEvent| e@,
            ).drop_first());
            Some(ev)
        } else {
            None
        }
    }
}

/// The events that announce, carry in pieces of at most fifty characters,
/// and close the thinking `text` of `agent`.
pub open spec fn thinking_events(agent: Seq<char>, text: Seq<char>) -> Seq<StreamEventView> {
    seq![StreamEventView::ThinkingStart { agent }] + chunks_of(text).map_values(
        |d: Seq<char>| StreamEventView::ThinkingDelta { agent, delta: d },
    ) + seq![StreamEventView::ThinkingEnd { agent }]
}

/// The events that announce, carry in pieces of at most fifty characters,
/// and close the answer `text` of `agent`.
pub open spec fn content_events(agent: Seq<char>, text: Seq<char>) -> Seq<StreamEventView> {
    seq![StreamEventView::ContentStart { agent }] + chunks_of(text).map_values(
        |d: Seq<char>| StreamEventView::ContentDelta { agent, delta: d },
    ) + seq![StreamEventView::ContentEnd { agent }]
}

/// The text that an event carries as a piece of thinking or of an answer;
/// empty for every other event.
pub open spec fn delta_text(e: StreamEventView) -> Seq<char> {
    match e {
        StreamEventView::ThinkingDelta { delta, .. } => delta,
        StreamEventView::ContentDelta { delta, .. } => delta,
        _ => Seq::empty(),
    }
}

/// The texts carried by the events strictly between the first and the last
/// of `events`, in order.
pub open spec fn inner_texts(events: Seq<StreamEventView>) -> Seq<Seq<char>> {
    Seq::new((events.len() - 2) as nat, |i: int| delta_text(events[i + 1]))
}

/// The thinking events of a text open with a start and close with an end of
/// the same agent; every event between them is a thinking delta of that
/// agent carrying 1 to 50 characters; and those pieces, joined in order, give
/// back the whole text.
pub proof fn lemma_thinking_events_carry_text(agent: Seq<char>, text: Seq<char>)
    ensures
        thinking_events(agent, text).len() >= 2,
        thinking_events(agent, text)[0] == (StreamEventView::ThinkingStart { agent }),
        thinking_events(agent, text).last() == (StreamEventView::ThinkingEnd { agent }),
        forall|i: int|
            0 < i < thinking_events(agent, text).len() - 1 ==> (#[trigger] thinking_events(
                agent,
                text,
            )[i] matches StreamEventView::ThinkingDelta { agent: a, delta } && a == agent && 0
                < delta.len() <= CHUNK_CHARS),
        inner_texts(thinking_events(agent, text)).flatten() == text,
        forall|i: int|
            0 < i < thinking_events(agent, text).len() - 2 ==> #[trigger] delta_text(
                thinking_events(agent, text)[i],
            ).len() == CHUNK_CHARS,
{
    let c = chunks_of(text);
    let ev = thinking_events(agent, text);
    lemma_chunks_rejoin(text);
    lemma_chunks_sizes(text);
    assert(ev.len() == c.len() + 2);
    assert forall|i: int| 0 < i < ev.len() - 1 implies (#[trigger] ev[i] matches StreamEventView::ThinkingDelta {
        agent: a,
        delta,
    } && a == agent && 0 < delta.len() <= CHUNK_CHARS) by {
        assert(ev[i] == (StreamEventView::ThinkingDelta { agent, delta: c[i - 1] }));
    }
    assert(inner_texts(ev) =~= c);
    assert forall|i: int| 0 < i < ev.len() - 2 implies #[trigger] delta_text(ev[i]).len()
        == CHUNK_CHARS by {
        assert(delta_text(ev[i]) == c[i - 1]);
    }
}

/// The answer events of a text open with a start and close with an end of
/// the same agent; every event between them is an answer delta of that agent
/// carrying 1 to 50 characters; and those pieces, joined in order, give back
/// the whole text.
pub proof fn lemma_content_events_carry_text(agent: Seq<char>, text: Seq<char>)
    ensures
        content_events(agent, text).len() >= 2,
        content_events(agent, text)[0] == (StreamEventView::ContentStart { agent }),
        content_events(agent, text).last() == (StreamEventView::ContentEnd { agent }),
        forall|i: int|
            0 < i < content_events(agent, text).len() - 1 ==> (#[trigger] content_events(
                agent,
                text,
            )[i] matches StreamEventView::ContentDelta { agent: a, delta } && a == agent && 0
                < delta.len() <= CHUNK_CHARS),
        inner_texts(content_events(agent, text)).flatten() == text,
        forall|i: int|
            0 < i < content_events(agent, text).len() - 2 ==> #[trigger] delta_text(
                content_events(agent, text)[i],
            ).len() == CHUNK_CHARS,
{
    let c = chunks_of(text);
    let ev = content_events(agent, text);
    lemma_chunks_rejoin(text);
    lemma_chunks_sizes(text);
    assert(ev.len() == c.len() + 2);
    assert forall|i: int| 0 < i < ev.len() - 1 implies (#[trigger] ev[i] matches StreamEventView::ContentDelta {
        agent: a,
        delta,
    } && a == agent && 0 < delta.len() <= CHUNK_CHARS) by {
        assert(ev[i] == (StreamEventView::ContentDelta { agent, delta: c[i - 1] }));
    }
    assert(inner_texts(ev) =~= c);
    assert forall|i: int| 0 < i < ev.len() - 2 implies #[trigger] delta_text(ev[i]).len()
        == CHUNK_CHARS by {
        assert(delta_text(ev[i]) == c[i - 1]);
    }
}

/// Builds the event list of a streamed answer.
pub struct StreamBuilder {
    events: Vec<StreamEvent>,
}

impl View for StreamBuilder {
    type V = Seq<StreamEventView>;

    /// The events collected so far, in order.
    closed spec fn view(&self) -> Seq<StreamEventView> {
        events_view(self.events@)
    }
}

impl StreamBuilder {
    /// A builder with no events.
    pub fn new() -> (b: Self)
        ensures
            b@ == Seq::<StreamEventView>::empty(),
    {
        let b = StreamBuilder { events: Vec::new() };
        assert(b@ =~= Seq::<StreamEventView>::empty());
        b
    }

    /// Appends the thinking `content` of `agent`: a start event, one delta
    /// per piece of at most fifty characters, and an end event.
    pub fn thinking(self, agent: &str, content: &str) -> (b: Self)
        ensures
            b@ == self@ + thinking_events(agent@, content@),
    {
        let mut events = self.events;
        let ghost start = events_view(events@);
        events.push(StreamEvent::thinking_start(agent));
        let pieces = split_chunks(content);
        let ghost deltas = chunks_of(content@).map_values(
            |d: Seq<char>| StreamEventView::ThinkingDelta { agent: agent@, delta: d },
        );
        let mut k: usize = 0;
        while k < pieces.len()
            invariant
                k <= pieces@.len(),
                pieces@.map_values(|p: String| p@) == chunks_of(content@),
                deltas == chunks_of(content@).map_values(
                    |d: Seq<char>| StreamEventView::ThinkingDelta { agent: agent@, delta: d },
                ),
                events_view(events@) == start + seq![StreamEventView::ThinkingStart { agent: agent@ }]
                    + deltas.take(k as int),
            decreases pieces@.len() - k,
        {
            let ghost prev = events@;
            events.push(StreamEvent::thinking_delta(agent, pieces[k].as_str()));
            assert(pieces@.map_values(|p: String| p@)[k as int] == pieces@[k as int]@);
            assert(deltas.take(k + 1) =~= deltas.take(k as int).push(deltas[k as int]));
            assert(events_view(events@) =~= events_view(prev).push(events@[k as int + start.len() + 1]@));
            k = k + 1;
        }
        let ghost mid = events@;
        events.push(StreamEvent::thinking_end(agent));
        assert(deltas.take(k as int) =~= deltas);
        assert(events_view(events@) =~= events_view(mid).push(
            StreamEventView::ThinkingEnd { agent: agent@ },
        ));
        assert(events_view(events@) =~= start + thinking_events(agent@, content@));
        StreamBuilder { events }
    }

    /// Appends the answer `content` of `agent`: a start event, one delta
    /// per piece of at most fifty characters, and an end event.
    pub fn content(self, agent: &str, content: &str) -> (b: Self)
        ensures
            b@ == self@ + content_events(agent@, content@),
    {
        let mut events = self.events;
        let ghost start = events_view(events@);
        events.push(StreamEvent::content_start(agent));
        let pieces = split_chunks(content);
        let ghost deltas = chunks_of(content@).map_values(
            |d: Seq<char>| StreamEventView::ContentDelta { agent: agent@, delta: d },
        );
        let mut k: usize = 0;
        while k < pieces.len()
            invariant
                k <= pieces@.len(),
                pieces@.map_values(|p: String| p@) == chunks_of(content@),
                deltas == chunks_of(content@).map_values(
                    |d: Seq<char>| StreamEventView::ContentDelta { agent: agent@, delta: d },
                ),
                events_view(events@) == start + seq![StreamEventView::ContentStart { agent: agent@ }]
                    + deltas.take(k as int),
            decreases pieces@.len() - k,
        {
            let ghost prev = events@;
            events.push(StreamEvent::content_delta(agent, pieces[k].as_str()));
            assert(pieces@.map_values(|p: String| p@)[k as int] == pieces@[k as int]@);
            assert(deltas.take(k + 1) =~= deltas.take(k as int).push(deltas[k as int]));
            assert(events_view(events@) =~= events_view(prev).push(events@[k as int + start.len() + 1]@));
            k = k + 1;
        }
        let ghost mid = events@;
        events.push(StreamEvent::content_end(agent));
        assert(deltas.take(k as int) =~= deltas);
        assert(events_view(events@) =~= events_view(mid).push(
            StreamEventView::ContentEnd { agent: agent@ },
        ));
        assert(events_view(events@) =~= start + content_events(agent@, content@));
        StreamBuilder { events }
    }

    /// Appends the event that marks the answer complete.
    pub fn complete(self) -> (b: Self)
        ensures
            b@ == self@.push(StreamEventView::Complete),
    {
        let mut events = self.events;
        let ghost start = events@;
        events.push(StreamEvent::complete());
        assert(events_view(events@) =~= events_view(start).push(StreamEventView::Complete));
        StreamBuilder { events }
    }

    /// The stream that hands out the collected events in order.
    pub fn build(self) -> (s: MessageStream)
        ensures
            s@ == self@,
    {
        MessageStream::new(self.events)
    }
}

impl Default for StreamBuilder {
    fn default() -> (b: Self)
        ensures
            b@ == Seq::<StreamEventView>::empty(),
    {
        Self::new()
    }
}

} // verus!

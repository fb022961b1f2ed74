//! The events of a review conversation: which are forwarded, which are hidden, and which end it.

use vstd::prelude::*;

verus! {

/// An item of a turn, with its payload.
#[derive(Debug)]
pub enum TurnItem<P> {
    AgentMessage(P),
    Other(P),
}

/// A message of the conversation, with its payload. All that the review does not tell apart is
/// `Other`.
#[derive(Debug)]
pub enum EventMsg<P> {
    AgentMessage(P),
    ItemCompleted(TurnItem<P>),
    AgentMessageDelta(P),
    AgentMessageContentDelta(P),
    TurnComplete { last_agent_message: Option<String> },
    TurnAborted,
    Other(P),
}

/// What the caller does after an event.
#[derive(Debug)]
pub enum ReviewEventStep<P> {
    /// Send the message on, if there is one, and receive the next event.
    Continue { forward: Option<EventMsg<P>> },
    /// Stop: the review came to its end with this last message of the agent.
    Finish { last_agent_message: Option<String> },
}

/// The state of a review conversation: the latest agent message, which is held back until
/// another one comes.
#[derive(Debug)]
pub struct ReviewEvents<P> {
    pub prev_agent_message: Option<EventMsg<P>>,
}

impl<P> EventMsg<P> {
    /// Whether this message ends the conversation.
    pub open spec fn ends_review(self) -> bool {
        self is TurnComplete || self is TurnAborted
    }

    /// Whether this message is sent on at once.
    pub open spec fn passes(self) -> bool {
        match self {
            EventMsg::Other(_) => true,
            EventMsg::ItemCompleted(TurnItem::Other(_)) => true,
            _ => false,
        }
    }
}

/// The state after an event.
pub open spec fn held_after<P>(held: Option<EventMsg<P>>, msg: EventMsg<P>) -> Option<EventMsg<P>> {
    if msg is AgentMessage {
        Some(msg)
    } else {
        held
    }
}

/// What is done after an event: an agent message pushes out the one that was held back, messages
/// that pass are sent on, and the end of the turn ends the review.
pub open spec fn step_after<P>(held: Option<EventMsg<P>>, msg: EventMsg<P>) -> ReviewEventStep<P> {
    match msg {
        EventMsg::AgentMessage(_) => ReviewEventStep::Continue { forward: held },
        EventMsg::TurnComplete { last_agent_message } => ReviewEventStep::Finish {
            last_agent_message,
        },
        EventMsg::TurnAborted => ReviewEventStep::Finish { last_agent_message: None },
        _ => ReviewEventStep::Continue {
            forward: if msg.passes() {
                Some(msg)
            } else {
                None
            },
        },
    }
}

impl<P> ReviewEvents<P> {
    /// The state before any event.
    pub fn new() -> (r: Self)
        ensures
            r.prev_agent_message is None,
    {
        ReviewEvents { prev_agent_message: None }
    }

    /// Takes an event of the conversation. Completed assistant messages and their deltas are
    /// hidden, since the review shows structured output in their place.
    pub fn process_review_event(&mut self, msg: EventMsg<P>) -> (r: ReviewEventStep<P>)
        ensures
            r == step_after(old(self).prev_agent_message, msg),
            final(self).prev_agent_message == held_after(old(self).prev_agent_message, msg),
    {
        match msg {
            EventMsg::AgentMessage(payload) => {
                let forward = self.prev_agent_message.take();
                self.prev_agent_message = Some(EventMsg::AgentMessage(payload));
                ReviewEventStep::Continue { forward }
            },
            EventMsg::ItemCompleted(TurnItem::AgentMessage(_))
            | EventMsg::AgentMessageDelta(_)
            | EventMsg::AgentMessageContentDelta(_) => ReviewEventStep::Continue { forward: None },
            EventMsg::TurnComplete { last_agent_message } => ReviewEventStep::Finish {
                last_agent_message,
            },
            EventMsg::TurnAborted => ReviewEventStep::Finish { last_agent_message: None },
            other => ReviewEventStep::Continue { forward: Some(other) },
        }
    }

    /// Takes the end of the event channel: a conversation without an end of its turn counts as
    /// interrupted.
    pub fn channel_closed(&self) -> (r: ReviewEventStep<P>)
        ensures
            r == (ReviewEventStep::<P>::Finish { last_agent_message: None }),
    {
        ReviewEventStep::Finish { last_agent_message: None }
    }
}

/// The messages of `events` before the one that ends the review.
pub open spec fn before_end<P>(events: Seq<EventMsg<P>>) -> Seq<EventMsg<P>>
    decreases events.len(),
{
    if events.len() == 0 || events.first().ends_review() {
        seq![]
    } else {
        seq![events.first()] + before_end(events.drop_first())
    }
}

/// The messages that are sent on while `events` come, when `held` is held back at first.
pub open spec fn forwarded<P>(
    held: Option<EventMsg<P>>,
    events: Seq<EventMsg<P>>,
) -> Seq<EventMsg<P>>
    decreases events.len(),
{
    if events.len() == 0 {
        seq![]
    } else {
        match step_after(held, events.first()) {
            ReviewEventStep::Finish { .. } => seq![],
            ReviewEventStep::Continue { forward } => (match forward {
                Some(msg) => seq![msg],
                None => seq![],
            }) + forwarded(held_after(held, events.first()), events.drop_first()),
        }
    }
}

/// The last agent message with which a review ends when `events` come and the channel closes.
pub open spec fn review_end<P>(
    held: Option<EventMsg<P>>,
    events: Seq<EventMsg<P>>,
) -> Option<String>
    decreases events.len(),
{
    if events.len() == 0 {
        None
    } else {
        match step_after(held, events.first()) {
            ReviewEventStep::Finish { last_agent_message } => last_agent_message,
            ReviewEventStep::Continue { .. } => review_end(
                held_after(held, events.first()),
                events.drop_first(),
            ),
        }
    }
}

/// Whether a message is an agent message.
pub open spec fn is_agent_message<P>() -> spec_fn(EventMsg<P>) -> bool {
    |msg: EventMsg<P>| msg is AgentMessage
}

/// Whether a message is sent on at once.
pub open spec fn is_passing<P>() -> spec_fn(EventMsg<P>) -> bool {
    |msg: EventMsg<P>| msg.passes()
}

/// The one message that a filter keeps of a list of one.
proof fn lemma_filter_one<P>(msg: EventMsg<P>, keep: spec_fn(EventMsg<P>) -> bool)
    ensures
        seq![msg].filter(keep) == if keep(msg) {
            seq![msg]
        } else {
            seq![]
        },
{
    reveal_with_fuel(Seq::filter, 2);
    assert(seq![msg].drop_last() =~= seq![]);
    assert(seq![].push(msg) =~= seq![msg]);
}

/// What filtering gives for a list with a message in front.
proof fn lemma_filter_front<P>(
    msg: EventMsg<P>,
    rest: Seq<EventMsg<P>>,
    keep: spec_fn(EventMsg<P>) -> bool,
)
    ensures
        (seq![msg] + rest).filter(keep) == if keep(msg) {
            seq![msg] + rest.filter(keep)
        } else {
            rest.filter(keep)
        },
{
    Seq::filter_distributes_over_add(seq![msg], rest, keep);
    lemma_filter_one(msg, keep);
    assert(seq![] + rest.filter(keep) =~= rest.filter(keep));
}

/// The messages of an optional message.
pub open spec fn held_messages<P>(held: Option<EventMsg<P>>) -> Seq<EventMsg<P>> {
    match held {
        Some(msg) => seq![msg],
        None => seq![],
    }
}

/// What is sent on, kind by kind, when a message is held back at first.
proof fn lemma_forwarded<P>(held: Option<EventMsg<P>>, events: Seq<EventMsg<P>>)
    requires
        held matches Some(msg) ==> msg is AgentMessage,
    ensures
        forwarded(held, events).filter(is_passing()) == before_end(events).filter(is_passing()),
        ({
            let agents = held_messages(held) + before_end(events).filter(is_agent_message());
            forwarded(held, events).filter(is_agent_message()) == if agents.len() == 0 {
                agents
            } else {
                agents.drop_last()
            }
        }),
        ({
            let sent = forwarded(held, events);
            forall|i: int|
                0 <= i < sent.len() ==> (#[trigger] sent[i]).passes() || sent[i] is AgentMessage
        }),
    decreases events.len(),
{
    reveal_with_fuel(Seq::filter, 1);
    let passing = is_passing::<P>();
    let agent = is_agent_message::<P>();
    let none: Seq<EventMsg<P>> = seq![];
    if events.len() == 0 || events.first().ends_review() {
        assert(forwarded(held, events) =~= none);
        assert(before_end(events) =~= none);
        let agents = held_messages(held) + none;
        assert(agents =~= held_messages(held));
        if held is Some {
            assert(agents.drop_last() =~= none);
        }
    } else {
        let msg = events.first();
        let rest = events.drop_first();
        let next = held_after(held, msg);
        lemma_forwarded(next, rest);
        lemma_filter_front(msg, before_end(rest), passing);
        lemma_filter_front(msg, before_end(rest), agent);
        let tail = forwarded(next, rest);
        let sent = match step_after(held, msg) {
            ReviewEventStep::Continue { forward } => held_messages(forward),
            _ => none,
        };
        assert(forwarded(held, events) == sent + tail);
        if sent.len() == 0 {
            assert(sent + tail =~= tail);
        } else {
            assert(sent =~= seq![sent[0]]);
            lemma_filter_front(sent[0], tail, passing);
            lemma_filter_front(sent[0], tail, agent);
        }
        let later = before_end(rest).filter(agent);
        if msg is AgentMessage {
            assert(held_messages(held) + (seq![msg] + later) =~= held_messages(held) + (
            held_messages(next) + later));
            let agents = held_messages(held) + (held_messages(next) + later);
            assert(agents.drop_last() =~= held_messages(held) + (held_messages(next)
                + later).drop_last());
            assert(none + tail.filter(agent) =~= tail.filter(agent));
        }
    }
}

/// However many events have come, the messages that are not told apart have been sent on, all of
/// them and in order, up to the end of the review; of the agent messages all but the latest have
/// been sent on, in order too. Nothing else has.
pub proof fn law_forwarded_messages<P>(events: Seq<EventMsg<P>>)
    ensures
        ({
            let sent = forwarded(None, events);
            let seen = before_end(events);
            let agents = seen.filter(is_agent_message());
            &&& sent.filter(is_passing()) == seen.filter(is_passing())
            &&& sent.filter(is_agent_message()) == if agents.len() == 0 {
                agents
            } else {
                agents.drop_last()
            }
            &&& forall|i: int|
                0 <= i < sent.len() ==> (#[trigger] sent[i]).passes() || sent[i] is AgentMessage
        }),
{
    lemma_forwarded::<P>(None, events);
    let agents = before_end(events).filter(is_agent_message());
    assert(held_messages::<P>(None) + agents =~= agents);
}

/// What has been sent on is not taken back: more events only add to it.
pub proof fn law_forwarding_only_adds<P>(
    held: Option<EventMsg<P>>,
    events: Seq<EventMsg<P>>,
    more: Seq<EventMsg<P>>,
)
    ensures
        forwarded(held, events).is_prefix_of(forwarded(held, events + more)),
    decreases events.len(),
{
    if events.len() > 0 {
        let rest = events.drop_first();
        law_forwarding_only_adds(held_after(held, events.first()), rest, more);
        assert((events + more).first() == events.first());
        assert((events + more).drop_first() =~= rest + more);
    }
}

/// The review ends at the first message that ends it: with the last agent message that a
/// completed turn names, and with none for an aborted turn or a channel that closes early.
pub proof fn law_review_end<P>(held: Option<EventMsg<P>>, events: Seq<EventMsg<P>>)
    ensures
        ({
            let end = before_end(events).len() as int;
            &&& end <= events.len()
            &&& end < events.len() ==> events[end].ends_review()
            &&& forall|i: int| 0 <= i < end ==> !(#[trigger] events[i]).ends_review()
            &&& review_end(held, events) == if end < events.len() {
                match events[end] {
                    EventMsg::TurnComplete { last_agent_message } => last_agent_message,
                    _ => None,
                }
            } else {
                None
            }
        }),
    decreases events.len(),
{
    if events.len() > 0 && !events.first().ends_review() {
        let rest = events.drop_first();
        law_review_end(held_after(held, events.first()), rest);
        let end = before_end(events).len() as int;
        assert(end == before_end(rest).len() + 1);
        assert forall|i: int| 0 <= i < end implies !(#[trigger] events[i]).ends_review() by {
            if i > 0 {
                assert(rest[i - 1] == events[i]);
            }
        }
        if end < events.len() {
            assert(rest[end - 1] == events[end]);
        }
    }
}

/// What becomes of a message. The end of the turn, complete or aborted, and nothing else stops the
/// review. An agent message is held back, and the one held back before it is sent on in its
/// place. Completed agent messages and the pieces of one are not sent on, and everything else is.
pub proof fn law_what_becomes_of_a_message<P>(held: Option<EventMsg<P>>, msg: EventMsg<P>)
    ensures
        msg.ends_review() <==> step_after(held, msg) is Finish,
        step_after(held, msg) is Finish <==> msg is TurnComplete || msg is TurnAborted,
        msg matches EventMsg::TurnComplete { last_agent_message: last } ==> step_after(held, msg)
            == (ReviewEventStep::<P>::Finish { last_agent_message: last }),
        msg is TurnAborted ==> step_after(held, msg) == (ReviewEventStep::<P>::Finish {
            last_agent_message: None,
        }),
        step_after(held, msg) matches ReviewEventStep::Continue { forward } ==> {
            let hidden = msg is AgentMessageDelta || msg is AgentMessageContentDelta
                || msg matches EventMsg::ItemCompleted(TurnItem::AgentMessage(_));
            &&& msg is AgentMessage ==> forward == held
            &&& hidden ==> forward is None
            &&& !hidden && msg !is AgentMessage ==> forward == Some(msg)
            &&& msg.passes() <==> !hidden && msg !is AgentMessage
        },
        msg.ends_review() ==> !msg.passes(),
        msg is AgentMessage ==> held_after(held, msg) == Some(msg),
        msg !is AgentMessage ==> held_after(held, msg) == held,
{
}

/// The messages before the end of the review are the first ones, all up to the one that ends it.
pub proof fn law_messages_before_the_end<P>(events: Seq<EventMsg<P>>)
    ensures
        ({
            let seen = before_end(events);
            &&& seen.len() <= events.len()
            &&& seen == events.take(seen.len() as int)
            &&& seen.len() < events.len() ==> events[seen.len() as int] is TurnComplete
                || events[seen.len() as int] is TurnAborted
            &&& forall|i: int|
                0 <= i < seen.len() ==> (#[trigger] events[i]) !is TurnComplete
                    && events[i] !is TurnAborted
        }),
    decreases events.len(),
{
    law_review_end(None, events);
    if events.len() > 0 && !events.first().ends_review() {
        let rest = events.drop_first();
        law_messages_before_the_end(rest);
        assert(before_end(events) =~= events.take(before_end(events).len() as int));
    } else {
        assert(before_end(events) =~= events.take(0));
    }
}

} // verus!

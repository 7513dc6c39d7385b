//! The relay between two websockets, one direction at a time.
//!
//! A direction takes messages from a source and sends each to a sink, until the source ends or fails,
//! or the sink refuses a message. The two directions of a connection watch each other: one that ends
//! on its own account signals its peer, and a direction that hears of its peer's end, by a signal or
//! because the peer is gone, ends as well.
use vstd::prelude::*;

verus! {

/// Where a direction of the relay stands.
#[derive(Clone, Copy, Debug, PartialEq, Eq, Structural)]
pub enum RelayState {
    /// It waits for a message from the source, or for the end of its peer.
    Waiting,
    /// It waits for the sink to take a message.
    Sending,
    /// It has ended.
    Finished,
}

/// What a direction of the relay waited for.
pub enum RelayEvent<M> {
    /// The source brought a message.
    Message(M),
    /// The peer has ended.
    PeerEnded,
    /// The source ended or failed: it brings no more messages.
    SourceEnded,
    /// The sink took the message.
    Sent,
    /// The sink refused the message.
    SendFailed,
}

/// What a direction of the relay does next.
pub enum RelayAction<M> {
    /// Wait for a message from the source, or for the end of the peer.
    Wait,
    /// Send the message to the sink.
    Send(M),
    /// Signal the peer, and end.
    SignalPeerAndFinish,
    /// End.
    Finish,
}

/// Whether the event can occur in that state.
pub open spec fn event_fits<M>(state: RelayState, event: RelayEvent<M>) -> bool {
    match event {
        RelayEvent::Message(_) | RelayEvent::PeerEnded | RelayEvent::SourceEnded => state
            == RelayState::Waiting,
        RelayEvent::Sent | RelayEvent::SendFailed => state == RelayState::Sending,
    }
}

/// Where the event takes a direction.
pub open spec fn state_after<M>(event: RelayEvent<M>) -> RelayState {
    match event {
        RelayEvent::Message(_) => RelayState::Sending,
        RelayEvent::Sent => RelayState::Waiting,
        RelayEvent::PeerEnded | RelayEvent::SourceEnded | RelayEvent::SendFailed =>
            RelayState::Finished,
    }
}

/// What a direction does upon the event.
pub open spec fn action_upon<M>(event: RelayEvent<M>) -> RelayAction<M> {
    match event {
        RelayEvent::Message(message) => RelayAction::Send(message),
        RelayEvent::Sent => RelayAction::Wait,
        RelayEvent::PeerEnded => RelayAction::Finish,
        RelayEvent::SourceEnded | RelayEvent::SendFailed => RelayAction::SignalPeerAndFinish,
    }
}

/// Takes a direction one event further.
pub fn relay_step<M>(state: RelayState, event: RelayEvent<M>) -> (r: (RelayState, RelayAction<M>))
    requires
        event_fits(state, event),
    ensures
        r.0 == state_after(event),
        r.1 == action_upon(event),
{
    match event {
        RelayEvent::Message(message) => (RelayState::Sending, RelayAction::Send(message)),
        RelayEvent::Sent => (RelayState::Waiting, RelayAction::Wait),
        RelayEvent::PeerEnded => (RelayState::Finished, RelayAction::Finish),
        RelayEvent::SourceEnded | RelayEvent::SendFailed => (
            RelayState::Finished,
            RelayAction::SignalPeerAndFinish,
        ),
    }
}

/// What the next item of a source means to a direction: a message, or, if it is an error or there is no
/// item any more, the end of the source.
pub open spec fn event_of<M, E>(item: Option<Result<M, E>>) -> RelayEvent<M> {
    match item {
        Some(Ok(message)) => RelayEvent::Message(message),
        _ => RelayEvent::SourceEnded,
    }
}

/// Reads the next item of a source.
pub fn source_event<M, E>(item: Option<Result<M, E>>) -> (event: RelayEvent<M>)
    ensures
        event == event_of(item),
{
    match item {
        Some(Ok(message)) => RelayEvent::Message(message),
        _ => RelayEvent::SourceEnded,
    }
}

/// Where a direction stands after the events.
pub open spec fn state_after_all<M>(events: Seq<RelayEvent<M>>) -> RelayState {
    if events.len() == 0 {
        RelayState::Waiting
    } else {
        state_after(events.last())
    }
}

/// Whether the events can occur one after the other, from the start.
pub open spec fn is_run<M>(events: Seq<RelayEvent<M>>) -> bool {
    forall|i: int|
        0 <= i < events.len() ==> event_fits(state_after_all(events.take(i)), #[trigger] events[i])
}

/// The messages that the source brought.
pub open spec fn received<M>(events: Seq<RelayEvent<M>>) -> Seq<M>
    decreases events.len(),
{
    if events.len() == 0 {
        Seq::empty()
    } else {
        match events.last() {
            RelayEvent::Message(message) => received(events.drop_last()).push(message),
            _ => received(events.drop_last()),
        }
    }
}

/// The messages that a direction handed to the sink upon the events.
pub open spec fn handed_on<M>(events: Seq<RelayEvent<M>>) -> Seq<M>
    decreases events.len(),
{
    if events.len() == 0 {
        Seq::empty()
    } else {
        match action_upon(events.last()) {
            RelayAction::Send(message) => handed_on(events.drop_last()).push(message),
            _ => handed_on(events.drop_last()),
        }
    }
}

/// The messages that the sink took: those whose sending was reported as done.
pub open spec fn delivered<M>(events: Seq<RelayEvent<M>>) -> Seq<M>
    decreases events.len(),
{
    if events.len() < 2 {
        Seq::empty()
    } else {
        match (events.drop_last().last(), events.last()) {
            (RelayEvent::Message(message), RelayEvent::Sent) => delivered(events.drop_last()).push(
                message,
            ),
            _ => delivered(events.drop_last()),
        }
    }
}

/// Every message that the source brings is handed to the sink, once and in order.
pub proof fn law_every_message_is_handed_on<M>(events: Seq<RelayEvent<M>>)
    ensures
        handed_on(events) == received(events),
    decreases events.len(),
{
    if events.len() > 0 {
        law_every_message_is_handed_on(events.drop_last());
    }
}

/// A run without its last event is a run, and the last event fits the state before it.
proof fn lemma_run_without_last<M>(events: Seq<RelayEvent<M>>)
    requires
        is_run(events),
        events.len() > 0,
    ensures
        is_run(events.drop_last()),
        event_fits(state_after_all(events.drop_last()), events.last()),
{
    let shorter = events.drop_last();
    assert(shorter =~= events.take(events.len() - 1));
    assert forall|i: int| 0 <= i < shorter.len() implies event_fits(
        state_after_all(shorter.take(i)),
        #[trigger] shorter[i],
    ) by {
        assert(shorter.take(i) =~= events.take(i));
        assert(event_fits(state_after_all(events.take(i)), events[i]));
    }
    assert(events[events.len() - 1] == events.last());
}

/// What the sink took is what the source brought, in order, as long as the sink refused nothing. Only
/// a message that is still being sent, or that the sink refused, is not there yet: the last one.
pub proof fn law_messages_are_delivered_in_order<M>(events: Seq<RelayEvent<M>>)
    requires
        is_run(events),
    ensures
        state_after_all(events) != RelayState::Sending && !(events.len() > 0
            && events.last() is SendFailed) ==> delivered(events) == received(events),
        state_after_all(events) == RelayState::Sending || (events.len() > 0
            && events.last() is SendFailed) ==> received(events).len() > 0 && delivered(events)
            == received(events).drop_last(),
    decreases events.len(),
{
    if events.len() > 0 {
        let shorter = events.drop_last();
        lemma_run_without_last(events);
        law_messages_are_delivered_in_order(shorter);
        if events.last() is Sent || events.last() is SendFailed {
            assert(shorter.len() > 0);
            assert(shorter.last() is Message);
            lemma_run_without_last(shorter);
            if events.last() is Sent {
                assert(delivered(events) =~= received(events));
            }
        }
        if events.last() is Message {
            assert(shorter.len() == 0 || shorter.last() is Sent);
            assert(received(events).drop_last() =~= received(shorter));
        }
    }
}

/// Nothing occurs to a direction after it has ended.
pub proof fn law_end_is_final<M>(events: Seq<RelayEvent<M>>, i: int)
    requires
        is_run(events),
        0 <= i < events.len(),
        state_after(events[i]) == RelayState::Finished,
    ensures
        i == events.len() - 1,
{
    if i + 1 < events.len() {
        assert(events.take(i + 1).last() == events[i]);
        assert(event_fits(state_after_all(events.take(i + 1)), events[i + 1]));
    }
}

/// Nothing occurs to a direction after the end of its source, which ends it.
pub proof fn law_nothing_follows_the_end_of_the_source<M>(events: Seq<RelayEvent<M>>, i: int)
    requires
        is_run(events),
        0 <= i < events.len(),
        events[i] is SourceEnded,
    ensures
        i == events.len() - 1,
        state_after_all(events) == RelayState::Finished,
        action_upon(events[i]) is SignalPeerAndFinish,
{
    law_end_is_final(events, i);
}

/// The messages that a source brings before its first error and before its end.
pub open spec fn leading_messages<M, E>(items: Seq<Option<Result<M, E>>>) -> Seq<M>
    decreases items.len(),
{
    if items.len() == 0 {
        Seq::empty()
    } else {
        match items[0] {
            Some(Ok(message)) => seq![message] + leading_messages(items.drop_first()),
            _ => Seq::empty(),
        }
    }
}

/// The events that came from the source.
pub open spec fn brought<M>(events: Seq<RelayEvent<M>>) -> Seq<RelayEvent<M>>
    decreases events.len(),
{
    if events.len() == 0 {
        Seq::empty()
    } else if events.last() is Message || events.last() is SourceEnded {
        brought(events.drop_last()).push(events.last())
    } else {
        brought(events.drop_last())
    }
}

/// Whether the events that came from the source are those of its items, from the first one on.
pub open spec fn draws_on<M, E>(
    events: Seq<RelayEvent<M>>,
    items: Seq<Option<Result<M, E>>>,
) -> bool {
    &&& brought(events).len() <= items.len()
    &&& forall|i: int|
        0 <= i < brought(events).len() ==> #[trigger] brought(events)[i] == event_of(items[i])
}

/// In a run the source brought messages, and after these at most its end.
proof fn lemma_brought<M>(events: Seq<RelayEvent<M>>)
    requires
        is_run(events),
    ensures
        ({
            let n = received(events).len();
            let ended = events.len() > 0 && events.last() is SourceEnded;
            &&& brought(events).len() == if ended {
                n + 1
            } else {
                n
            }
            &&& forall|i: int|
                0 <= i < n ==> #[trigger] brought(events)[i] == RelayEvent::Message(
                    received(events)[i],
                )
            &&& ended ==> brought(events)[n as int] is SourceEnded
        }),
    decreases events.len(),
{
    if events.len() > 0 {
        let shorter = events.drop_last();
        lemma_run_without_last(events);
        lemma_brought(shorter);
        assert(!(shorter.len() > 0 && shorter.last() is SourceEnded));
    }
}

/// If the first `n` items are messages, these are the leading messages, or the first of them.
proof fn lemma_leading_messages<M, E>(items: Seq<Option<Result<M, E>>>, n: nat)
    requires
        n <= items.len(),
        forall|i: int| 0 <= i < n ==> event_of(#[trigger] items[i]) is Message,
    ensures
        leading_messages(items).len() >= n,
        forall|i: int|
            0 <= i < n ==> event_of(#[trigger] items[i]) == RelayEvent::Message(
                leading_messages(items)[i],
            ),
        n < items.len() && event_of(items[n as int]) is SourceEnded ==> leading_messages(items).len()
            == n,
    decreases items.len(),
{
    if n > 0 {
        let rest = items.drop_first();
        assert(event_of(items[0]) is Message);
        assert forall|i: int| 0 <= i < n - 1 implies event_of(#[trigger] rest[i]) is Message by {
            assert(rest[i] == items[i + 1]);
        }
        lemma_leading_messages(rest, (n - 1) as nat);
        assert forall|i: int| 0 <= i < n implies event_of(#[trigger] items[i])
            == RelayEvent::Message(leading_messages(items)[i]) by {
            if i > 0 {
                assert(items[i] == rest[i - 1]);
            }
        }
        if n < items.len() {
            assert(items[n as int] == rest[n - 1]);
        }
    }
}

/// At every moment the messages taken from the source, those handed to the sink and those that the sink
/// took are the first of the leading messages of the source, in order. Nothing is taken behind its
/// first error or its end, and once that was taken, every leading message has reached the sink.
pub proof fn law_leading_messages_are_relayed<M, E>(
    events: Seq<RelayEvent<M>>,
    items: Seq<Option<Result<M, E>>>,
)
    requires
        is_run(events),
        draws_on(events, items),
    ensures
        received(events).is_prefix_of(leading_messages(items)),
        handed_on(events).is_prefix_of(leading_messages(items)),
        delivered(events).is_prefix_of(leading_messages(items)),
        brought(events).len() <= leading_messages(items).len() + 1,
        events.len() > 0 && events.last() is SourceEnded ==> delivered(events) == leading_messages(
            items,
        ),
{
    let n = received(events).len();
    lemma_brought(events);
    assert forall|i: int| 0 <= i < n implies event_of(#[trigger] items[i]) == RelayEvent::Message(
        received(events)[i],
    ) by {
        assert(brought(events)[i] == event_of(items[i]));
    }
    if events.len() > 0 && events.last() is SourceEnded {
        assert(brought(events)[n as int] == event_of(items[n as int]));
    }
    lemma_leading_messages(items, n);
    assert forall|i: int| 0 <= i < n implies received(events)[i] == leading_messages(items)[i] by {
        assert(event_of(items[i]) == RelayEvent::Message(received(events)[i]));
    }
    law_every_message_is_handed_on(events);
    law_messages_are_delivered_in_order(events);
}

/// A direction whose peer has ended ends too: with the next event if it waits, and with the one after
/// that at the latest if it is sending, however the sending goes.
pub proof fn law_direction_follows_its_peer<M>(state: RelayState)
    ensures
        state == RelayState::Waiting ==> event_fits::<M>(state, RelayEvent::PeerEnded),
        state_after::<M>(RelayEvent::PeerEnded) == RelayState::Finished,
        forall|event: RelayEvent<M>|
            state == RelayState::Sending && #[trigger] event_fits(state, event) ==> state_after(event)
                == RelayState::Finished || event_fits::<M>(
                state_after(event),
                RelayEvent::PeerEnded,
            ),
{
}

/// The two directions of a connection, and which of them has signalled its peer.
pub struct RelayPair {
    /// The direction from the strangled application to the client.
    pub to_client: RelayState,
    /// The direction from the client to the strangled application.
    pub to_strangled: RelayState,
    /// Whether the direction to the client has signalled the other.
    pub to_client_signalled: bool,
    /// Whether the direction to the strangled application has signalled the other.
    pub to_strangled_signalled: bool,
}

impl RelayPair {
    /// A connection on which nothing has happened yet.
    pub open spec fn start() -> Self {
        RelayPair {
            to_client: RelayState::Waiting,
            to_strangled: RelayState::Waiting,
            to_client_signalled: false,
            to_strangled_signalled: false,
        }
    }

    /// Whether the event can occur to the direction to the client. It hears of its peer's end only
    /// after that end.
    pub open spec fn fits_to_client<M>(self, event: RelayEvent<M>) -> bool {
        event_fits(self.to_client, event) && (event is PeerEnded ==> self.to_strangled
            == RelayState::Finished)
    }

    /// Whether the event can occur to the direction to the strangled application.
    pub open spec fn fits_to_strangled<M>(self, event: RelayEvent<M>) -> bool {
        event_fits(self.to_strangled, event) && (event is PeerEnded ==> self.to_client
            == RelayState::Finished)
    }

    /// The connection after an event on the direction to the client.
    pub open spec fn after_to_client<M>(self, event: RelayEvent<M>) -> Self {
        RelayPair {
            to_client: state_after(event),
            to_client_signalled: self.to_client_signalled || action_upon(event)
                is SignalPeerAndFinish,
            ..self
        }
    }

    /// The connection after an event on the direction to the strangled application.
    pub open spec fn after_to_strangled<M>(self, event: RelayEvent<M>) -> Self {
        RelayPair {
            to_strangled: state_after(event),
            to_strangled_signalled: self.to_strangled_signalled || action_upon(event)
                is SignalPeerAndFinish,
            ..self
        }
    }

    /// A direction that has signalled has ended, and no direction has ended before one of the two
    /// signalled.
    pub open spec fn inv(self) -> bool {
        &&& self.to_client_signalled ==> self.to_client == RelayState::Finished
        &&& self.to_strangled_signalled ==> self.to_strangled == RelayState::Finished
        &&& (self.to_client == RelayState::Finished || self.to_strangled == RelayState::Finished)
            ==> (self.to_client_signalled || self.to_strangled_signalled)
    }
}

/// The direction of a connection that ends first signals the other: this holds at the start, and every
/// event on either direction keeps it.
pub proof fn law_first_to_end_signals<M>(pair: RelayPair, event: RelayEvent<M>)
    ensures
        RelayPair::start().inv(),
        pair.inv() && pair.fits_to_client(event) ==> pair.after_to_client(event).inv(),
        pair.inv() && pair.fits_to_strangled(event) ==> pair.after_to_strangled(event).inv(),
{
}

/// What occurs on a connection: an event on one of its directions.
pub enum PairEvent<M> {
    /// On the direction from the strangled application to the client.
    ToClient(RelayEvent<M>),
    /// On the direction from the client to the strangled application.
    ToStrangled(RelayEvent<M>),
}

impl RelayPair {
    /// Whether the event can occur.
    pub open spec fn fits<M>(self, event: PairEvent<M>) -> bool {
        match event {
            PairEvent::ToClient(event) => self.fits_to_client(event),
            PairEvent::ToStrangled(event) => self.fits_to_strangled(event),
        }
    }

    /// The connection after the event.
    pub open spec fn after<M>(self, event: PairEvent<M>) -> Self {
        match event {
            PairEvent::ToClient(event) => self.after_to_client(event),
            PairEvent::ToStrangled(event) => self.after_to_strangled(event),
        }
    }

    /// Whether nothing is under way: no message is being sent, and no direction has yet to hear of its
    /// peer's end.
    pub open spec fn settled(self) -> bool {
        &&& self.to_client != RelayState::Sending
        &&& self.to_strangled != RelayState::Sending
        &&& !self.fits_to_client(RelayEvent::<()>::PeerEnded)
        &&& !self.fits_to_strangled(RelayEvent::<()>::PeerEnded)
    }
}

/// Where a connection stands after the events.
pub open spec fn pair_after_all<M>(events: Seq<PairEvent<M>>) -> RelayPair
    decreases events.len(),
{
    if events.len() == 0 {
        RelayPair::start()
    } else {
        pair_after_all(events.drop_last()).after(events.last())
    }
}

/// Whether the events can occur on a connection one after the other, from the start.
pub open spec fn is_pair_run<M>(events: Seq<PairEvent<M>>) -> bool
    decreases events.len(),
{
    events.len() == 0 || is_pair_run(events.drop_last()) && pair_after_all(
        events.drop_last(),
    ).fits(events.last())
}

/// The events on the direction to the client.
pub open spec fn to_client_events<M>(events: Seq<PairEvent<M>>) -> Seq<RelayEvent<M>>
    decreases events.len(),
{
    if events.len() == 0 {
        Seq::empty()
    } else {
        match events.last() {
            PairEvent::ToClient(event) => to_client_events(events.drop_last()).push(event),
            PairEvent::ToStrangled(_) => to_client_events(events.drop_last()),
        }
    }
}

/// The events on the direction to the strangled application.
pub open spec fn to_strangled_events<M>(events: Seq<PairEvent<M>>) -> Seq<RelayEvent<M>>
    decreases events.len(),
{
    if events.len() == 0 {
        Seq::empty()
    } else {
        match events.last() {
            PairEvent::ToClient(_) => to_strangled_events(events.drop_last()),
            PairEvent::ToStrangled(event) => to_strangled_events(events.drop_last()).push(event),
        }
    }
}

/// A run with one more event that fits is a run.
proof fn lemma_longer_run<M>(events: Seq<RelayEvent<M>>, event: RelayEvent<M>)
    requires
        is_run(events),
        event_fits(state_after_all(events), event),
    ensures
        is_run(events.push(event)),
{
    let longer = events.push(event);
    assert forall|i: int| 0 <= i < longer.len() implies event_fits(
        state_after_all(longer.take(i)),
        #[trigger] longer[i],
    ) by {
        assert(longer.take(i) =~= events.take(i));
        if i < events.len() {
            assert(event_fits(state_after_all(events.take(i)), events[i]));
        } else {
            assert(events.take(i) =~= events);
        }
    }
}

/// What occurs on a connection is a run on each of its directions.
pub proof fn law_directions_run<M>(events: Seq<PairEvent<M>>)
    requires
        is_pair_run(events),
    ensures
        is_run(to_client_events(events)),
        is_run(to_strangled_events(events)),
        pair_after_all(events).to_client == state_after_all(to_client_events(events)),
        pair_after_all(events).to_strangled == state_after_all(to_strangled_events(events)),
        pair_after_all(events).inv(),
    decreases events.len(),
{
    if events.len() > 0 {
        let shorter = events.drop_last();
        law_directions_run(shorter);
        match events.last() {
            PairEvent::ToClient(event) => {
                lemma_longer_run(to_client_events(shorter), event);
            },
            PairEvent::ToStrangled(event) => {
                lemma_longer_run(to_strangled_events(shorter), event);
            },
        }
    }
}

/// At every moment what the client got are the first of the leading messages of the strangled
/// application, and what the strangled application got are the first of those of the client.
pub proof fn law_both_sides_get_what_the_other_sent<M, E>(
    events: Seq<PairEvent<M>>,
    from_strangled: Seq<Option<Result<M, E>>>,
    from_client: Seq<Option<Result<M, E>>>,
)
    requires
        is_pair_run(events),
        draws_on(to_client_events(events), from_strangled),
        draws_on(to_strangled_events(events), from_client),
    ensures
        delivered(to_client_events(events)).is_prefix_of(leading_messages(from_strangled)),
        delivered(to_strangled_events(events)).is_prefix_of(leading_messages(from_client)),
{
    law_directions_run(events);
    law_leading_messages_are_relayed(to_client_events(events), from_strangled);
    law_leading_messages_are_relayed(to_strangled_events(events), from_client);
}

/// Whether the event ends a direction on its own account: its source ended, or its sink refused a
/// message.
pub open spec fn ends_a_direction<M>(event: PairEvent<M>) -> bool {
    match event {
        PairEvent::ToClient(event) => event is SourceEnded || event is SendFailed,
        PairEvent::ToStrangled(event) => event is SourceEnded || event is SendFailed,
    }
}

/// A direction that has ended stays so.
proof fn lemma_ended_direction<M>(events: Seq<PairEvent<M>>, i: int)
    requires
        is_pair_run(events),
        0 <= i < events.len(),
        ends_a_direction(events[i]),
    ensures
        pair_after_all(events).to_client == RelayState::Finished || pair_after_all(
            events,
        ).to_strangled == RelayState::Finished,
    decreases events.len(),
{
    if i < events.len() - 1 {
        assert(events.drop_last()[i] == events[i]);
        lemma_ended_direction(events.drop_last(), i);
    }
}

/// When the source of either direction ends, or its sink refuses a message, both directions end: the
/// connection does not settle before they have, whatever else occurs on it, and a direction that is
/// left waiting can hear of its peer's end.
pub proof fn law_both_directions_end<M>(events: Seq<PairEvent<M>>, i: int)
    requires
        is_pair_run(events),
        0 <= i < events.len(),
        ends_a_direction(events[i]),
    ensures
        pair_after_all(events).settled() ==> pair_after_all(events).to_client
            == RelayState::Finished && pair_after_all(events).to_strangled == RelayState::Finished,
        pair_after_all(events).to_client == RelayState::Waiting ==> pair_after_all(
            events,
        ).fits_to_client(RelayEvent::<M>::PeerEnded),
        pair_after_all(events).to_strangled == RelayState::Waiting ==> pair_after_all(
            events,
        ).fits_to_strangled(RelayEvent::<M>::PeerEnded),
{
    lemma_ended_direction(events, i);
}

} // verus!

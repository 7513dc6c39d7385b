use axum_strangler::inner::relay::{
    relay_step, source_event, RelayAction, RelayEvent, RelayState,
};
use std::collections::VecDeque;

#[derive(Clone, Debug, PartialEq)]
enum Message {
    Text(String),
    Close,
}

/// One direction, with a source and a sink in memory.
struct Direction {
    state: RelayState,
    action: RelayAction<Message>,
    source: VecDeque<Option<Result<Message, &'static str>>>,
    sink: Vec<Message>,
    sink_takes: usize,
    signalled: bool,
}

impl Direction {
    fn new(source: &[Message], sink_takes: usize) -> Self {
        Direction {
            state: RelayState::Waiting,
            action: RelayAction::Wait,
            source: source.iter().cloned().map(|message| Some(Ok(message))).collect(),
            sink: vec![],
            sink_takes,
            signalled: false,
        }
    }

    /// A direction whose source ends behind the messages.
    fn ending(source: &[Message], sink_takes: usize) -> Self {
        let mut direction = Direction::new(source, sink_takes);
        direction.source.push_back(None);
        direction
    }

    fn finished(&self) -> bool {
        self.state == RelayState::Finished
    }

    /// Goes one event further, if one can occur.
    fn advance(&mut self, peer_ended: bool) -> bool {
        let event = match std::mem::replace(&mut self.action, RelayAction::Wait) {
            RelayAction::Wait => match self.source.pop_front() {
                Some(item) => source_event(item),
                None if peer_ended => RelayEvent::PeerEnded,
                None => return false,
            },
            RelayAction::Send(message) => {
                if self.sink.len() < self.sink_takes {
                    self.sink.push(message);
                    RelayEvent::Sent
                } else {
                    RelayEvent::SendFailed
                }
            }
            RelayAction::SignalPeerAndFinish | RelayAction::Finish => unreachable!(),
        };
        let (state, action) = relay_step(self.state, event);
        self.state = state;
        match action {
            RelayAction::SignalPeerAndFinish => self.signalled = true,
            RelayAction::Finish => {}
            action => self.action = action,
        }
        true
    }
}

/// Runs both directions until nothing can happen any more.
fn run(to_client: &mut Direction, to_strangled: &mut Direction) {
    loop {
        let mut moved = false;
        if !to_client.finished() {
            let ended = to_strangled.finished();
            moved |= to_client.advance(ended);
        }
        if !to_strangled.finished() {
            let ended = to_client.finished();
            moved |= to_strangled.advance(ended);
        }
        if !moved {
            return;
        }
    }
}

fn text(message: &str) -> Message {
    Message::Text(message.to_string())
}

#[test]
fn proxies_strangled_websocket_service() {
    let message = "A websocket message";
    let mut to_strangled = Direction::new(&[text(message)], 1);
    let mut to_client = Direction::new(&[], 1);
    run(&mut to_client, &mut to_strangled);

    // Only reply to a single message and stop.
    let reply = to_strangled.sink[0].clone();
    to_client.source.push_back(Some(Ok(reply)));
    run(&mut to_client, &mut to_strangled);
    match &to_client.sink[0] {
        Message::Text(response) => assert_eq!(message, response),
        _ => panic!("We expected text back but got something else!"),
    }
}

#[test]
fn proxied_websocket_closes_properly_close_from_strangled() {
    // The strangled application closes, and the client says nothing.
    let mut to_client = Direction::ending(&[Message::Close], 1);
    let mut to_strangled = Direction::new(&[], 1);
    run(&mut to_client, &mut to_strangled);
    assert_eq!(to_client.sink, vec![Message::Close]);
    assert!(to_client.finished());
    assert!(to_strangled.finished());
}

#[test]
fn proxied_websocket_closes_properly_close_from_client() {
    // The client closes, and the strangled application says nothing.
    let mut to_strangled = Direction::ending(&[Message::Close], 1);
    let mut to_client = Direction::new(&[], 1);
    run(&mut to_client, &mut to_strangled);
    assert_eq!(to_strangled.sink, vec![Message::Close]);
    assert!(to_client.finished());
    assert!(to_strangled.finished());
}

#[test]
fn messages_arrive_once_and_in_order() {
    let messages = [text("a"), text("b"), text("c"), text("d")];
    let mut to_client = Direction::new(&messages, 10);
    let mut to_strangled = Direction::new(&[], 10);
    run(&mut to_client, &mut to_strangled);
    assert_eq!(to_client.sink, messages);
    assert_eq!(to_client.state, RelayState::Waiting);
}

#[test]
fn refused_message_ends_both_directions() {
    let messages = [text("a"), text("b"), text("c")];
    let mut to_client = Direction::new(&messages, 2);
    let mut to_strangled = Direction::new(&[text("x")], 10);
    run(&mut to_client, &mut to_strangled);
    assert_eq!(to_client.sink, messages[..2]);
    assert_eq!(to_strangled.sink, vec![text("x")]);
    assert!(to_client.finished() && to_client.signalled);
    assert!(to_strangled.finished() && !to_strangled.signalled);
}

#[test]
fn refused_close_ends_both_directions() {
    let mut to_client = Direction::new(&[Message::Close], 1);
    let mut to_strangled = Direction::new(&[Message::Close], 0);
    run(&mut to_client, &mut to_strangled);
    assert_eq!(to_client.sink, vec![Message::Close]);
    assert!(to_client.finished() && !to_client.signalled);
    assert!(to_strangled.finished() && to_strangled.signalled);
}

#[test]
fn end_of_a_source_ends_both_directions() {
    let mut to_client = Direction::ending(&[text("a"), text("b")], 10);
    let mut to_strangled = Direction::new(&[text("x")], 10);
    run(&mut to_client, &mut to_strangled);
    assert_eq!(to_client.sink, vec![text("a"), text("b")]);
    assert_eq!(to_strangled.sink, vec![text("x")]);
    assert!(to_client.finished() && to_client.signalled);
    assert!(to_strangled.finished() && !to_strangled.signalled);
}

#[test]
fn nothing_is_taken_behind_an_error_of_the_source() {
    let mut to_strangled = Direction::new(&[text("a")], 10);
    to_strangled.source.push_back(Some(Err("reset")));
    to_strangled.source.push_back(Some(Ok(text("b"))));
    let mut to_client = Direction::new(&[], 10);
    run(&mut to_client, &mut to_strangled);
    assert_eq!(to_strangled.sink, vec![text("a")]);
    assert_eq!(to_strangled.source.len(), 1);
    assert!(to_client.finished());
    assert!(to_strangled.finished() && to_strangled.signalled);
}

#[test]
fn both_sources_may_end_at_once() {
    let mut to_client = Direction::ending(&[], 10);
    let mut to_strangled = Direction::ending(&[], 10);
    run(&mut to_client, &mut to_strangled);
    assert!(to_client.finished());
    assert!(to_strangled.finished());
}

#[test]
fn items_of_a_source_are_read() {
    assert!(matches!(source_event(Some(Ok::<u8, u8>(7))), RelayEvent::Message(7)));
    assert!(matches!(source_event(Some(Err::<u8, u8>(7))), RelayEvent::SourceEnded));
    assert!(matches!(source_event::<u8, u8>(None), RelayEvent::SourceEnded));
}

#[test]
fn every_event_has_its_step() {
    let (state, action) = relay_step(RelayState::Waiting, RelayEvent::Message(7));
    assert_eq!(state, RelayState::Sending);
    assert!(matches!(action, RelayAction::Send(7)));
    let (state, action) = relay_step::<u8>(RelayState::Sending, RelayEvent::Sent);
    assert_eq!(state, RelayState::Waiting);
    assert!(matches!(action, RelayAction::Wait));
    let (state, action) = relay_step::<u8>(RelayState::Sending, RelayEvent::SendFailed);
    assert_eq!(state, RelayState::Finished);
    assert!(matches!(action, RelayAction::SignalPeerAndFinish));
    let (state, action) = relay_step::<u8>(RelayState::Waiting, RelayEvent::SourceEnded);
    assert_eq!(state, RelayState::Finished);
    assert!(matches!(action, RelayAction::SignalPeerAndFinish));
    let (state, action) = relay_step::<u8>(RelayState::Waiting, RelayEvent::PeerEnded);
    assert_eq!(state, RelayState::Finished);
    assert!(matches!(action, RelayAction::Finish));
}

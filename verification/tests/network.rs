use agent_net::behavior::{AgentEvent, IdentifyEvent, KadEvent, PingEvent};
use agent_net::network::{EventLoop, KadCommand, SwarmEvent};

type Event = SwarmEvent<u32, &'static str>;
type Command = KadCommand<u32, &'static str>;

fn commands(event: Event) -> Vec<Command> {
    EventLoop { swarm: () }.handle_event(event)
}

#[test]
fn a_closed_connection_removes_the_peer() {
    let commands = commands(SwarmEvent::ConnectionClosed { peer_id: 7 });
    assert_eq!(commands.len(), 1);
    assert!(matches!(commands[0], KadCommand::RemovePeer(7)));
}

#[test]
fn listen_addresses_are_added_in_order() {
    let event = IdentifyEvent::Received { peer_id: 3, listen_addrs: vec!["a", "b", "a"] };
    let commands = commands(SwarmEvent::Behaviour(event.into()));
    assert_eq!(commands.len(), 3);
    assert!(matches!(commands[0], KadCommand::AddAddress(3, "a")));
    assert!(matches!(commands[1], KadCommand::AddAddress(3, "b")));
    assert!(matches!(commands[2], KadCommand::AddAddress(3, "a")));
}

#[test]
fn a_peer_that_listens_nowhere_adds_nothing() {
    let event = IdentifyEvent::Received { peer_id: 3, listen_addrs: vec![] };
    assert!(commands(SwarmEvent::Behaviour(AgentEvent::Identify(event))).is_empty());
}

#[test]
fn other_events_change_nothing() {
    assert!(commands(SwarmEvent::ConnectionEstablished { peer_id: 1 }).is_empty());
    assert!(commands(SwarmEvent::Other).is_empty());
    assert!(commands(SwarmEvent::Behaviour(AgentEvent::Identify(IdentifyEvent::Other))).is_empty());
    assert!(commands(SwarmEvent::Behaviour(KadEvent {}.into())).is_empty());
    assert!(commands(SwarmEvent::Behaviour(PingEvent {}.into())).is_empty());
}

#[test]
fn events_are_wrapped_by_their_protocol() {
    let event: AgentEvent<u32, u32> = AgentEvent::from(IdentifyEvent::<u32, u32>::Other);
    assert!(matches!(event, AgentEvent::Identify(IdentifyEvent::Other)));
    let event: AgentEvent<u32, u32> = AgentEvent::from(KadEvent {});
    assert!(matches!(event, AgentEvent::Kad(_)));
    let event: AgentEvent<u32, u32> = AgentEvent::from(PingEvent {});
    assert!(matches!(event, AgentEvent::Ping(_)));
}

#[test]
fn an_event_loop_needs_a_started_swarm() {
    let started: Result<u32, &str> = Ok(5);
    assert_eq!(EventLoop::new(started).ok().unwrap().swarm, 5);
    let failed: Result<u32, &str> = Err("no");
    assert_eq!(EventLoop::new(failed).err(), Some("no"));
}

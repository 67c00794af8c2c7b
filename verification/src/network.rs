//! The event loop of a running swarm: what each event means for the routing table.
use crate::behavior::{AgentEvent, IdentifyEvent, KadEvent, PingEvent};
use crate::psk::{base64_encoded, psk_of};
use crate::startup::{begin, begun, Action, Environment, Startup};
use vstd::prelude::*;

verus! {

/// What the swarm reports. `P` stands for the ids of peers, `A` for addresses.
pub enum SwarmEvent<P, A> {
    /// A connection to a peer stands.
    ConnectionEstablished { peer_id: P },
    /// A connection to a peer is gone.
    ConnectionClosed { peer_id: P },
    /// A sub-protocol reports something.
    Behaviour(AgentEvent<P, A>),
    /// Anything else.
    Other,
}

/// A change to the routing table.
pub enum KadCommand<P, A> {
    /// Forget a peer.
    RemovePeer(P),
    /// Remember that a peer can be reached at an address.
    AddAddress(P, A),
}

/// One [`KadCommand::AddAddress`] for each address, in order.
pub open spec fn added<P, A>(peer_id: P, addrs: Seq<A>) -> Seq<KadCommand<P, A>> {
    Seq::new(addrs.len(), |i: int| KadCommand::AddAddress(peer_id, addrs[i]))
}

/// The changes to the routing table that an event of the identification asks for: the addresses
/// at which a peer says that it listens are remembered.
pub open spec fn identify_commands<P, A>(event: IdentifyEvent<P, A>) -> Seq<KadCommand<P, A>> {
    match event {
        IdentifyEvent::Received { peer_id, listen_addrs } => added(peer_id, listen_addrs@),
        IdentifyEvent::Other => Seq::empty(),
    }
}

/// The changes to the routing table that an event asks for: a peer whose connection is gone is
/// forgotten, and one that tells about itself is remembered.
pub open spec fn kad_commands<P, A>(event: SwarmEvent<P, A>) -> Seq<KadCommand<P, A>> {
    match event {
        SwarmEvent::ConnectionClosed { peer_id } => seq![KadCommand::RemovePeer(peer_id)],
        SwarmEvent::Behaviour(AgentEvent::Identify(event)) => identify_commands(event),
        _ => Seq::empty(),
    }
}

/// The event loop around a running swarm `S`.
pub struct EventLoop<S> {
    pub swarm: S,
}

impl<S> EventLoop<S> {
    /// Takes over a swarm that has started; the error of one that has not is handed on.
    pub fn new<E>(started: Result<S, E>) -> (res: Result<Self, E>)
        ensures
            res == match started {
                Ok(swarm) => Ok::<Self, E>(EventLoop { swarm }),
                Err(error) => Err::<Self, E>(error),
            },
    {
        match started {
            Ok(swarm) => Ok(EventLoop { swarm }),
            Err(error) => Err(error),
        }
    }

    /// Begins to start the swarm of the event loop. It dials nobody, and its base transport
    /// resolves host names by itself.
    pub fn start_swarm(env: &Environment) -> (res: (Startup, Action))
        ensures
            (res.0@, res.1@) == begun(env@, true, false),
            // A swarm speaks the agents' protocol, and its connections are encrypted with the key that
            // the environment holds.
            res.1 matches Action::Build(config) ==> {
                &&& config.behavior.kad.protocol@ == "/agent/connection/1.0.0"@
                &&& config.behavior.identify.protocol_version@ == "/agent/connection/1.0.0"@
                &&& config.behavior.kad.local_peer_id@ == config.identity.peer_id@
                &&& config.behavior.identify.public_key@ == config.identity.public_key@
                &&& config.transport.psk matches Some(psk) ==> env.net_key matches Some(text)
                    && vstd::utf8::encode_utf8(text@) == base64_encoded(psk.key@)
                &&& config.transport.psk is None ==> env.net_key is None || psk_of(
                    Some(vstd::utf8::encode_utf8(env.net_key->0@)),
                ) is Err
            },
    {
        begin(env, true, false)
    }

    /// Says how the routing table is to change on an event.
    pub fn handle_event<P: Copy, A>(&self, event: SwarmEvent<P, A>) -> (commands: Vec<
        KadCommand<P, A>,
    >)
        ensures
            commands@ == kad_commands(event),
            match event {
                SwarmEvent::ConnectionClosed { peer_id } => {
                    &&& commands@.len() == 1
                    &&& commands@[0] == KadCommand::<P, A>::RemovePeer(peer_id)
                },
                SwarmEvent::Behaviour(
                    AgentEvent::Identify(IdentifyEvent::Received { peer_id, listen_addrs }),
                ) => {
                    &&& commands@.len() == listen_addrs@.len()
                    &&& forall|i: int|
                        0 <= i < listen_addrs@.len() ==> #[trigger] commands@[i]
                            == KadCommand::AddAddress(peer_id, listen_addrs@[i])
                },
                _ => commands@.len() == 0,
            },
    {
        match event {
            SwarmEvent::ConnectionEstablished { .. } => Vec::new(),
            SwarmEvent::ConnectionClosed { peer_id } => {
                let mut commands: Vec<KadCommand<P, A>> = Vec::new();
                commands.push(KadCommand::RemovePeer(peer_id));
                commands
            },
            SwarmEvent::Behaviour(AgentEvent::Identify(event)) => self.handle_identify_event(event),
            SwarmEvent::Behaviour(AgentEvent::Kad(event)) => self.handle_kad_event(event),
            SwarmEvent::Behaviour(AgentEvent::Ping(event)) => self.handle_ping_event(event),
            SwarmEvent::Other => Vec::new(),
        }
    }

    fn handle_identify_event<P: Copy, A>(&self, event: IdentifyEvent<P, A>) -> (commands: Vec<
        KadCommand<P, A>,
    >)
        ensures
            commands@ == identify_commands(event),
    {
        let mut commands: Vec<KadCommand<P, A>> = Vec::new();
        match event {
            IdentifyEvent::Received { peer_id, listen_addrs } => {
                for addr in addrs: listen_addrs
                    invariant
                        commands@ == added(peer_id, addrs.seq().take(addrs.index() as int)),
                {
                    commands.push(KadCommand::AddAddress(peer_id, addr));
                }
            },
            IdentifyEvent::Other => {},
        }
        commands
    }

    fn handle_kad_event<P, A>(&self, _event: KadEvent) -> (commands: Vec<KadCommand<P, A>>)
        ensures
            commands@.len() == 0,
    {
        Vec::new()
    }

    fn handle_ping_event<P, A>(&self, _event: PingEvent) -> (commands: Vec<KadCommand<P, A>>)
        ensures
            commands@.len() == 0,
    {
        Vec::new()
    }
}

/// The addresses that an address book has for a peer; none for one that it does not know.
pub open spec fn known<P, A>(book: Map<P, Set<A>>, peer_id: P) -> Set<A> {
    if book.dom().contains(peer_id) {
        book[peer_id]
    } else {
        Set::empty()
    }
}

/// What a command means for an address book, which has for each known peer the addresses at
/// which it can be reached. The routing table that carries the command out may keep less than
/// the book: it takes in neither the node itself nor an address that ends with another peer, and
/// its buckets can be full.
pub open spec fn applied<P, A>(book: Map<P, Set<A>>, command: KadCommand<P, A>) -> Map<P, Set<A>> {
    match command {
        KadCommand::RemovePeer(peer_id) => book.remove(peer_id),
        KadCommand::AddAddress(peer_id, addr) => book.insert(
            peer_id,
            known(book, peer_id).insert(addr),
        ),
    }
}

/// An address book after a series of commands.
pub open spec fn applied_all<P, A>(
    book: Map<P, Set<A>>,
    commands: Seq<KadCommand<P, A>>,
) -> Map<P, Set<A>>
    decreases commands.len(),
{
    if commands.len() == 0 {
        book
    } else {
        applied(applied_all(book, commands.drop_last()), commands.last())
    }
}

/// An event tells only of the peer that it names: every command that comes of it is about that
/// peer, and an event that names none for the routing table brings no command.
pub proof fn law_commands_concern_the_named_peer<P, A>(event: SwarmEvent<P, A>, i: int)
    requires
        0 <= i < kad_commands(event).len(),
    ensures
        match event {
            SwarmEvent::ConnectionClosed { peer_id } => kad_commands(event)[i]
                == KadCommand::<P, A>::RemovePeer(peer_id),
            SwarmEvent::Behaviour(
                AgentEvent::Identify(IdentifyEvent::Received { peer_id, listen_addrs }),
            ) => kad_commands(event)[i] == KadCommand::AddAddress(peer_id, listen_addrs@[i]),
            _ => false,
        },
{
}

/// A peer whose connection is gone is out of the address book, and the others stay as they were.
pub proof fn law_closed_peer_is_forgotten<P, A>(book: Map<P, Set<A>>, peer_id: P)
    ensures
        applied_all(book, kad_commands(SwarmEvent::<P, A>::ConnectionClosed { peer_id }))
            == book.remove(peer_id),
{
    let commands = kad_commands(SwarmEvent::<P, A>::ConnectionClosed { peer_id });
    assert(commands.drop_last() =~= Seq::empty());
    assert(applied_all(book, commands.drop_last()) == book);
}

/// A peer that tells where it listens is known at these addresses, beside those known before,
/// and the others stay as they were.
pub proof fn law_identified_peer_is_known<P, A>(
    book: Map<P, Set<A>>,
    peer_id: P,
    listen_addrs: Vec<A>,
)
    ensures
        ({
            let event = SwarmEvent::Behaviour(
                AgentEvent::Identify(IdentifyEvent::Received { peer_id, listen_addrs }),
            );
            let later = applied_all(book, kad_commands(event));
            &&& forall|addr: A| #[trigger]
                known(later, peer_id).contains(addr) <==> known(book, peer_id).contains(addr)
                    || listen_addrs@.contains(addr)
            &&& later.remove(peer_id) == book.remove(peer_id)
        }),
{
    lemma_added(book, peer_id, listen_addrs@);
}

proof fn lemma_added<P, A>(book: Map<P, Set<A>>, peer_id: P, addrs: Seq<A>)
    ensures
        ({
            let later = applied_all(book, added(peer_id, addrs));
            &&& forall|addr: A| #[trigger]
                known(later, peer_id).contains(addr) <==> known(book, peer_id).contains(addr)
                    || addrs.contains(addr)
            &&& later.remove(peer_id) == book.remove(peer_id)
        }),
    decreases addrs.len(),
{
    let commands = added(peer_id, addrs);
    if addrs.len() > 0 {
        let init = addrs.drop_last();
        lemma_added(book, peer_id, init);
        assert(commands.drop_last() =~= added(peer_id, init));
        let before = applied_all(book, added(peer_id, init));
        let later = applied_all(book, commands);
        assert(later == before.insert(peer_id, known(before, peer_id).insert(addrs.last())));
        assert(later.remove(peer_id) =~= before.remove(peer_id));
        assert forall|addr: A| #[trigger]
            known(later, peer_id).contains(addr) <==> known(book, peer_id).contains(addr)
                || addrs.contains(addr) by {
            assert(known(before, peer_id).contains(addr) <==> known(book, peer_id).contains(addr)
                || init.contains(addr));
            if init.contains(addr) {
                let k = init.index_of(addr);
                assert(addrs[k] == addr);
            }
            if addrs.contains(addr) {
                let k = addrs.index_of(addr);
                if k < init.len() {
                    assert(init[k] == addr);
                }
            }
            assert(addrs.contains(addrs.last()));
        }
    }
}

/// A closed connection brings one command, a peer that tells about itself one for each address
/// at which it listens, and any other event none.
pub proof fn law_one_command_for_each_news<P, A>(event: SwarmEvent<P, A>)
    ensures
        kad_commands(event).len() == match event {
            SwarmEvent::ConnectionClosed { .. } => 1,
            SwarmEvent::Behaviour(
                AgentEvent::Identify(IdentifyEvent::Received { listen_addrs, .. }),
            ) => listen_addrs@.len(),
            _ => 0,
        },
{
}

/// A command changes what is known of the peer that it names and of no other: that peer is
/// forgotten, or known at one more address.
pub proof fn law_a_command_changes_one_peer<P, A>(
    book: Map<P, Set<A>>,
    peer_id: P,
    addr: A,
    other: P,
    place: A,
)
    ensures
        !applied(book, KadCommand::<P, A>::RemovePeer(peer_id)).dom().contains(peer_id),
        applied(book, KadCommand::AddAddress(peer_id, addr)).dom().contains(peer_id),
        applied(book, KadCommand::AddAddress(peer_id, addr))[peer_id].contains(place) <==> place
            == addr || book.dom().contains(peer_id) && book[peer_id].contains(place),
        other != peer_id ==> {
            &&& applied(book, KadCommand::<P, A>::RemovePeer(peer_id)).dom().contains(other)
                == book.dom().contains(other)
            &&& applied(book, KadCommand::<P, A>::RemovePeer(peer_id))[other] == book[other]
            &&& applied(book, KadCommand::AddAddress(peer_id, addr)).dom().contains(other)
                == book.dom().contains(other)
            &&& applied(book, KadCommand::AddAddress(peer_id, addr))[other] == book[other]
        },
{
}

}

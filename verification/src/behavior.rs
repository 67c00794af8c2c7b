//! The three sub-protocols that an agent speaks, and the events that they report.
use crate::identity::{AccountKey, AccountKeyView};
use vstd::prelude::*;
use vstd::std_specs::convert::FromSpec;

verus! {

/// The name of the agents' protocol, for the routing table and for identification alike.
pub const AGENT_PROTOCOL: &'static str = "/agent/connection/1.0.0";

/// Seconds between two bootstraps of the routing table.
pub const KAD_BOOTSTRAP_SECS: u64 = 300;

/// Seconds between two publications of the node's own records.
pub const KAD_PUBLICATION_SECS: u64 = 120;

/// Seconds between two replications of the records of others.
pub const KAD_REPLICATION_SECS: u64 = 120;

/// Seconds between two identifications of a connected peer.
pub const IDENTIFY_SECS: u64 = 30;

/// Seconds between two pings of a connected peer.
pub const PING_SECS: u64 = 10;

/// Settings of the Kademlia routing table and its record store.
#[derive(Debug, PartialEq, Eq)]
pub struct KadSettings {
    /// The bytes of the peer id under which the table and the store are kept.
    pub local_peer_id: Vec<u8>,
    pub protocol: String,
    pub bootstrap_secs: u64,
    pub publication_secs: u64,
    pub replication_secs: u64,
}

/// What [`KadSettings`] hold.
pub struct KadSettingsView {
    pub local_peer_id: Seq<u8>,
    pub protocol: Seq<char>,
    pub bootstrap_secs: u64,
    pub publication_secs: u64,
    pub replication_secs: u64,
}

impl View for KadSettings {
    type V = KadSettingsView;

    open spec fn view(&self) -> KadSettingsView {
        KadSettingsView {
            local_peer_id: self.local_peer_id@,
            protocol: self.protocol@,
            bootstrap_secs: self.bootstrap_secs,
            publication_secs: self.publication_secs,
            replication_secs: self.replication_secs,
        }
    }
}

/// Settings of the identification of peers.
#[derive(Debug, PartialEq, Eq)]
pub struct IdentifySettings {
    pub protocol_version: String,
    /// The node's own public key, as libp2p encodes it.
    pub public_key: Vec<u8>,
    /// Whether peers are told at once of a change of the listen addresses.
    pub push_listen_addr_updates: bool,
    pub interval_secs: u64,
}

/// What [`IdentifySettings`] hold.
pub struct IdentifySettingsView {
    pub protocol_version: Seq<char>,
    pub public_key: Seq<u8>,
    pub push_listen_addr_updates: bool,
    pub interval_secs: u64,
}

impl View for IdentifySettings {
    type V = IdentifySettingsView;

    open spec fn view(&self) -> IdentifySettingsView {
        IdentifySettingsView {
            protocol_version: self.protocol_version@,
            public_key: self.public_key@,
            push_listen_addr_updates: self.push_listen_addr_updates,
            interval_secs: self.interval_secs,
        }
    }
}

/// Settings of the pings.
#[derive(Debug, Clone, Copy, PartialEq, Eq, Structural)]
pub struct PingSettings {
    pub interval_secs: u64,
}

/// What an agent speaks on its connections.
#[derive(Debug, PartialEq, Eq)]
pub struct AgentBehavior {
    pub identify: IdentifySettings,
    pub kad: KadSettings,
    pub ping: PingSettings,
}

/// What an [`AgentBehavior`] holds.
pub struct AgentBehaviorView {
    pub identify: IdentifySettingsView,
    pub kad: KadSettingsView,
    pub ping: PingSettings,
}

impl View for AgentBehavior {
    type V = AgentBehaviorView;

    open spec fn view(&self) -> AgentBehaviorView {
        AgentBehaviorView { identify: self.identify@, kad: self.kad@, ping: self.ping }
    }
}

impl AgentBehavior {
    /// Puts the three sub-protocols together.
    pub fn new(kad: KadSettings, identify: IdentifySettings, ping: PingSettings) -> (res: Self)
        ensures
            res.kad == kad,
            res.identify == identify,
            res.ping == ping,
    {
        AgentBehavior { kad, identify, ping }
    }
}

/// What the agent with the given key speaks: all three sub-protocols act in the name of that key.
pub open spec fn behavior_of(key: AccountKeyView) -> AgentBehaviorView {
    AgentBehaviorView {
        identify: IdentifySettingsView {
            protocol_version: AGENT_PROTOCOL@,
            public_key: key.public_key,
            push_listen_addr_updates: true,
            interval_secs: IDENTIFY_SECS,
        },
        kad: KadSettingsView {
            local_peer_id: key.peer_id,
            protocol: AGENT_PROTOCOL@,
            bootstrap_secs: KAD_BOOTSTRAP_SECS,
            publication_secs: KAD_PUBLICATION_SECS,
            replication_secs: KAD_REPLICATION_SECS,
        },
        ping: PingSettings { interval_secs: PING_SECS },
    }
}

/// Sets the sub-protocols up for the agent with the given key.
pub fn agent_behavior(key: &AccountKey) -> (res: AgentBehavior)
    ensures
        res@ == behavior_of(key@),
        res.kad.local_peer_id@ == key.peer_id@,
        res.kad.protocol@ == "/agent/connection/1.0.0"@,
        res.identify.public_key@ == key.public_key@,
        res.identify.protocol_version@ == "/agent/connection/1.0.0"@,
{
    let kad = KadSettings {
        local_peer_id: key.peer_id.clone(),
        protocol: AGENT_PROTOCOL.to_owned(),
        bootstrap_secs: KAD_BOOTSTRAP_SECS,
        publication_secs: KAD_PUBLICATION_SECS,
        replication_secs: KAD_REPLICATION_SECS,
    };
    let identify = IdentifySettings {
        protocol_version: AGENT_PROTOCOL.to_owned(),
        public_key: key.public_key.clone(),
        push_listen_addr_updates: true,
        interval_secs: IDENTIFY_SECS,
    };
    let ping = PingSettings { interval_secs: PING_SECS };
    AgentBehavior::new(kad, identify, ping)
}

/// What the identification of peers reports. `P` stands for the ids of peers, `A` for addresses.
pub enum IdentifyEvent<P, A> {
    /// A peer has told about itself, among other things where it listens.
    Received { peer_id: P, listen_addrs: Vec<A> },
    /// Anything else: information sent or pushed, or an error.
    Other,
}

/// What the routing table reports. Nothing of it is read.
pub struct KadEvent {}

/// What the pings report. Nothing of it is read.
pub struct PingEvent {}

/// What one of the sub-protocols reports.
pub enum AgentEvent<P, A> {
    Identify(IdentifyEvent<P, A>),
    Kad(KadEvent),
    Ping(PingEvent),
}

impl<P, A> From<IdentifyEvent<P, A>> for AgentEvent<P, A> {
    fn from(value: IdentifyEvent<P, A>) -> (res: Self) {
        AgentEvent::Identify(value)
    }
}

impl<P, A> vstd::std_specs::convert::FromSpecImpl<IdentifyEvent<P, A>> for AgentEvent<P, A> {
    open spec fn obeys_from_spec() -> bool {
        true
    }

    open spec fn from_spec(value: IdentifyEvent<P, A>) -> Self {
        AgentEvent::Identify(value)
    }
}

impl<P, A> From<KadEvent> for AgentEvent<P, A> {
    fn from(value: KadEvent) -> (res: Self) {
        AgentEvent::Kad(value)
    }
}

impl<P, A> vstd::std_specs::convert::FromSpecImpl<KadEvent> for AgentEvent<P, A> {
    open spec fn obeys_from_spec() -> bool {
        true
    }

    open spec fn from_spec(value: KadEvent) -> Self {
        AgentEvent::Kad(value)
    }
}

impl<P, A> From<PingEvent> for AgentEvent<P, A> {
    fn from(value: PingEvent) -> (res: Self) {
        AgentEvent::Ping(value)
    }
}

impl<P, A> vstd::std_specs::convert::FromSpecImpl<PingEvent> for AgentEvent<P, A> {
    open spec fn obeys_from_spec() -> bool {
        true
    }

    open spec fn from_spec(value: PingEvent) -> Self {
        AgentEvent::Ping(value)
    }
}

/// Whatever its key, an agent speaks the agents' protocol, in its routing table and to be
/// identified: `/agent/connection/1.0.0`. It acts as the peer, and shows the public key, of its
/// key. It bootstraps its routing table every 300 seconds, publishes and replicates records every
/// 120, identifies peers every 30, tells them at once of new addresses, and pings every 10.
pub proof fn law_agents_speak_one_protocol(key: AccountKeyView)
    ensures
        behavior_of(key).kad.protocol == "/agent/connection/1.0.0"@,
        behavior_of(key).kad.local_peer_id == key.peer_id,
        behavior_of(key).kad.bootstrap_secs == 300,
        behavior_of(key).kad.publication_secs == 120,
        behavior_of(key).kad.replication_secs == 120,
        behavior_of(key).identify.protocol_version == "/agent/connection/1.0.0"@,
        behavior_of(key).identify.public_key == key.public_key,
        behavior_of(key).identify.push_listen_addr_updates,
        behavior_of(key).identify.interval_secs == 30,
        behavior_of(key).ping.interval_secs == 10,
{
}

/// Two agents can always talk to each other: what they speak differs only in the peer id and the
/// public key.
pub proof fn law_agents_differ_only_in_their_key(left: AccountKeyView, right: AccountKeyView)
    ensures
        behavior_of(left).kad.protocol == behavior_of(right).kad.protocol,
        behavior_of(left).identify.protocol_version == behavior_of(right).identify.protocol_version,
        behavior_of(left).ping == behavior_of(right).ping,
        behavior_of(left) == behavior_of(right) <==> left.peer_id == right.peer_id
            && left.public_key == right.public_key,
{
}

/// The view of what an agent speaks shows each setting.
pub proof fn law_a_behavior_shows_its_settings(behavior: AgentBehavior)
    ensures
        behavior@.kad.local_peer_id == behavior.kad.local_peer_id@,
        behavior@.kad.protocol == behavior.kad.protocol@,
        behavior@.kad.bootstrap_secs == behavior.kad.bootstrap_secs,
        behavior@.kad.publication_secs == behavior.kad.publication_secs,
        behavior@.kad.replication_secs == behavior.kad.replication_secs,
        behavior@.identify.protocol_version == behavior.identify.protocol_version@,
        behavior@.identify.public_key == behavior.identify.public_key@,
        behavior@.identify.push_listen_addr_updates == behavior.identify.push_listen_addr_updates,
        behavior@.identify.interval_secs == behavior.identify.interval_secs,
        behavior@.ping == behavior.ping,
{
}

/// An event of a sub-protocol becomes an event of the agent that holds it, under the name of that
/// sub-protocol.
pub proof fn law_an_event_keeps_its_origin<P, A>(
    identify: IdentifyEvent<P, A>,
    kad: KadEvent,
    ping: PingEvent,
)
    ensures
        <AgentEvent<P, A> as FromSpec<IdentifyEvent<P, A>>>::from_spec(identify)
            == AgentEvent::<P, A>::Identify(identify),
        <AgentEvent<P, A> as FromSpec<KadEvent>>::from_spec(kad) == AgentEvent::<P, A>::Kad(kad),
        <AgentEvent<P, A> as FromSpec<PingEvent>>::from_spec(ping) == AgentEvent::<P, A>::Ping(
            ping,
        ),
        <AgentEvent<P, A> as FromSpec<IdentifyEvent<P, A>>>::obeys_from_spec(),
        <AgentEvent<P, A> as FromSpec<KadEvent>>::obeys_from_spec(),
        <AgentEvent<P, A> as FromSpec<PingEvent>>::obeys_from_spec(),
{
}

}

use agent_net::address::{parse_legacy_multiaddr, AddressError};
use agent_net::behavior::{agent_behavior, AgentBehavior, IdentifySettings, KadSettings, PingSettings};
use agent_net::identity::{account_key, HexError, KeyError};
use agent_net::network::EventLoop;
use agent_net::startup::{
    start_swarm, Action, Environment, Mode, Phase, StartError, Startup, SwarmConfig,
};

const SK: &str = "0101010101010101010101010101010101010101010101010101010101010101";
const NET_KEY: &str = "AAAAAAAAAAAAAAAAAAAAAAAAAAAAAAAAAAAAAAAAAAA=";

fn env(sk: &str, net_key: Option<&str>, net_address: Option<&str>) -> Environment {
    Environment {
        account_sk: sk.to_string(),
        net_key: net_key.map(|s| s.to_string()),
        net_address: net_address.map(|s| s.to_string()),
    }
}

fn config_of(action: Action) -> SwarmConfig {
    match action {
        Action::Build(config) => config,
        _ => panic!("nothing is built"),
    }
}

#[test]
fn an_agent_starts() {
    let (mut startup, action) = start_swarm(&env(SK, Some(NET_KEY), None));
    let config = config_of(action);
    assert_eq!(config.identity, account_key(SK).unwrap());
    assert_eq!(config.transport.psk.unwrap().key, [0u8; 32]);
    assert!(config.transport.tcp_nodelay);
    assert!(!config.transport.resolve_names);
    assert_eq!(config.transport.max_streams, 1024 * 1024);
    assert_eq!(config.idle_timeout_secs, 60);
    let boot = parse_legacy_multiaddr("/ip4/192.168.1.136/tcp/8002").unwrap();
    assert!(matches!(startup.advance(true), Action::Dial(address) if address == boot));
    assert!(matches!(startup.advance(true), Action::SetMode(Mode::Server)));
    let listen = parse_legacy_multiaddr("/ip4/0.0.0.0/tcp/8000").unwrap();
    assert!(matches!(startup.advance(true), Action::Listen(address) if address == listen));
    assert!(matches!(startup.advance(true), Action::Finish));
    assert_eq!(startup.phase, Phase::Running);
    assert!(matches!(startup.advance(false), Action::Rest));
    assert_eq!(startup.phase, Phase::Running);
}

#[test]
fn the_event_loops_swarm_starts() {
    let place = "/ip4/127.0.0.1/tcp/9";
    let (mut startup, action) = EventLoop::<()>::start_swarm(&env(SK, None, Some(place)));
    let config = config_of(action);
    assert!(config.transport.resolve_names);
    assert_eq!(config.transport.psk, None);
    assert!(matches!(startup.advance(true), Action::SetMode(Mode::Server)));
    let listen = parse_legacy_multiaddr(place).unwrap();
    assert!(matches!(startup.advance(true), Action::Listen(address) if address == listen));
    assert!(matches!(startup.advance(true), Action::Finish));
}

#[test]
fn both_swarms_agree_but_for_names() {
    let place = env(SK, Some(NET_KEY), None);
    let agent = config_of(start_swarm(&place).1);
    let mut event_loop = config_of(EventLoop::<()>::start_swarm(&place).1);
    event_loop.transport.resolve_names = false;
    assert_eq!(agent, event_loop);
}

#[test]
fn an_unreadable_account_key_aborts() {
    let error = StartError::Key(KeyError::Hex(HexError::OddLength));
    let (startup, action) = start_swarm(&env("1", Some(NET_KEY), None));
    assert!(matches!(action, Action::Abort(e) if e == error));
    assert_eq!(startup.phase, Phase::Failed);
    let (startup, action) = EventLoop::<()>::start_swarm(&env("00", None, None));
    assert!(matches!(action, Action::Abort(StartError::Key(KeyError::SecretKey(_)))));
    assert_eq!(startup.phase, Phase::Failed);
}

#[test]
fn an_unreadable_network_key_opens_the_network() {
    for key in [None, Some("!"), Some("AAAA")] {
        let config = config_of(start_swarm(&env(SK, key, None)).1);
        assert_eq!(config.transport.psk, None);
    }
}

fn at(phase: Phase, dial_boot: bool, listen: &str) -> Startup {
    Startup { phase, dial_boot, listen: listen.to_string() }
}

#[test]
fn failed_steps_abort() {
    for (phase, error) in [
        (Phase::Building, StartError::Build),
        (Phase::Dialing, StartError::Dial),
        (Phase::Listening, StartError::Listen),
    ] {
        let mut startup = at(phase, true, "/ip4/0.0.0.0/tcp/8000");
        assert!(matches!(startup.advance(false), Action::Abort(e) if e == error));
        assert_eq!(startup.phase, Phase::Failed);
        assert!(matches!(startup.advance(true), Action::Rest));
    }
}

#[test]
fn setting_the_mode_cannot_fail() {
    let mut startup = at(Phase::SettingMode, false, "/ip4/0.0.0.0/tcp/8000");
    assert!(matches!(startup.advance(false), Action::Listen(_)));
}

#[test]
fn an_unreadable_listen_address_aborts_after_the_mode() {
    let (mut startup, action) = start_swarm(&env(SK, None, Some("/ip4/0.0.0.0/tcp/http")));
    assert!(matches!(action, Action::Build(_)));
    assert!(matches!(startup.advance(true), Action::Dial(_)));
    assert!(matches!(startup.advance(true), Action::SetMode(Mode::Server)));
    let cause = "invalid digit found in string".to_string();
    let error = StartError::Address(AddressError::ParsingError(cause));
    assert!(matches!(startup.advance(true), Action::Abort(e) if e == error));
}

#[test]
fn the_listen_address_is_taken_as_it_stands() {
    let peer = "QmcgpsyWgH8Y8ajJz1Cu72KnS5uo2Aa2LpzU7kinSupNKC";
    let mut startup = at(Phase::SettingMode, false, &format!("/ip4/0.0.0.0/tcp/1/p2p/{}", peer));
    match startup.advance(true) {
        Action::Listen(address) => assert_eq!(address.components.len(), 3),
        _ => panic!("nothing is listened on"),
    }
}

#[test]
fn addresses_that_were_read_elsewhere() {
    let boot = parse_legacy_multiaddr("/ip4/1.2.3.4/tcp/5").unwrap();
    let mut startup = at(Phase::Building, true, "");
    assert!(matches!(startup.dial(Ok(boot)), Action::Dial(address) if address.components.len() == 2));
    assert_eq!(startup.phase, Phase::Dialing);
    let error = StartError::Address(AddressError::InvalidMultiaddr);
    let mut startup = at(Phase::Building, true, "");
    assert!(matches!(startup.dial(Err(AddressError::InvalidMultiaddr)), Action::Abort(e) if e == error));
    let mut startup = at(Phase::SettingMode, true, "");
    assert!(matches!(startup.listen_on(Err(AddressError::InvalidMultiaddr)), Action::Abort(e) if e == error));
    assert_eq!(startup.phase, Phase::Failed);
}

#[test]
fn four_reports_end_every_startup() {
    for reports in 0..16u32 {
        let (mut startup, _) = start_swarm(&env(SK, None, None));
        for i in 0..4 {
            startup.advance(reports >> i & 1 == 1);
        }
        assert!(matches!(startup.phase, Phase::Running | Phase::Failed));
    }
}

#[test]
fn the_sub_protocols_speak_for_the_key() {
    let key = account_key(SK).unwrap();
    let expected = AgentBehavior {
        identify: IdentifySettings {
            protocol_version: "/agent/connection/1.0.0".to_string(),
            public_key: account_key(SK).unwrap().public_key,
            push_listen_addr_updates: true,
            interval_secs: 30,
        },
        kad: KadSettings {
            local_peer_id: account_key(SK).unwrap().peer_id,
            protocol: "/agent/connection/1.0.0".to_string(),
            bootstrap_secs: 300,
            publication_secs: 120,
            replication_secs: 120,
        },
        ping: PingSettings { interval_secs: 10 },
    };
    assert_eq!(agent_behavior(&key), expected);
}

#[test]
fn the_error_of_a_step_is_handed_back() {
    for phase in [Phase::Building, Phase::Dialing, Phase::Listening] {
        let mut startup = at(phase, true, "/ip4/0.0.0.0/tcp/8000");
        assert_eq!(startup.report(Err("refused")).err(), Some("refused"));
        assert_eq!(startup.phase, Phase::Failed);
        assert!(matches!(startup.report(Ok::<(), &str>(())), Ok(Action::Rest)));
        assert!(matches!(startup.report(Err("again")), Ok(Action::Rest)));
    }
}

#[test]
fn an_agent_that_cannot_dial_does_not_listen() {
    let (mut startup, _) = start_swarm(&env(SK, None, None));
    assert!(matches!(startup.report(Ok::<(), u32>(())), Ok(Action::Dial(_))));
    assert_eq!(startup.report(Err(7u32)).err(), Some(7));
    assert!(matches!(startup.report(Ok::<(), u32>(())), Ok(Action::Rest)));
}

#[test]
fn reports_of_success_lead_to_the_end() {
    let (mut startup, _) = start_swarm(&env(SK, None, None));
    assert!(matches!(startup.report(Ok::<(), ()>(())), Ok(Action::Dial(_))));
    assert!(matches!(startup.report(Ok::<(), ()>(())), Ok(Action::SetMode(Mode::Server))));
    assert!(matches!(startup.report(Err(())), Ok(Action::Listen(_))));
    assert!(matches!(startup.report(Ok::<(), ()>(())), Ok(Action::Finish)));
    assert_eq!(startup.phase, Phase::Running);
}

#[test]
fn reports_and_advances_move_alike() {
    for phase in [
        Phase::Building,
        Phase::Dialing,
        Phase::SettingMode,
        Phase::Listening,
        Phase::Running,
        Phase::Failed,
    ] {
        for ok in [false, true] {
            let mut told = at(phase, true, "/ip4/0.0.0.0/tcp/8000");
            let mut given = at(phase, true, "/ip4/0.0.0.0/tcp/8000");
            told.advance(ok);
            let handed_back = given.report(if ok { Ok(()) } else { Err(()) }).is_err();
            assert_eq!(given, told);
            let can_fail = matches!(phase, Phase::Building | Phase::Dialing | Phase::Listening);
            assert_eq!(handed_back, can_fail && !ok);
        }
    }
}

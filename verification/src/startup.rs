//! Starting the swarm: which steps are taken, in which order, and when starting fails.
//!
//! The steps themselves (building the swarm, dialing, listening) are the caller's. It asks for
//! the first by [`start_swarm`], takes it, reports how it went to [`Startup::report`], and is told
//! the next, or is handed back the error of the step.
use crate::address::{
    address_result, legacy_address, multiaddr_from_str, parse_legacy_multiaddr, parsed_multiaddr,
    Address, AddressError, AddressErrorView, ComponentView, ParsedView,
};
use crate::behavior::{agent_behavior, behavior_of, AgentBehavior, AgentBehaviorView};
use crate::identity::{
    account_key, account_key_of, AccountKey, AccountKeyView, KeyError, KeyErrorView,
};
use crate::psk::{
    base64_encoded, get_psk, law_a_key_has_one_text, law_psk_is_what_was_encoded,
    law_what_is_no_psk_is_refused, psk_of, PreSharedKey,
};
use vstd::prelude::*;

verus! {

/// The address that an agent dials when it starts.
pub const BOOT_ADDRESS: &'static str = "/ip4/192.168.1.136/tcp/8002";

/// The address on which a node listens when it is told no other.
pub const DEFAULT_LISTEN_ADDRESS: &'static str = "/ip4/0.0.0.0/tcp/8000";

/// The number of streams that a connection may carry.
pub const MAX_STREAMS: usize = 1048576;

/// Seconds after which a connection without use is closed.
pub const IDLE_TIMEOUT_SECS: u64 = 60;

/// The settings that a node finds in its environment.
#[derive(Debug, PartialEq, Eq)]
pub struct Environment {
    /// `ACCOUNT_SK`: the account's secret key in hexadecimal.
    pub account_sk: String,
    /// `PRIVITE_NET_KEY`: the key of the private network in base64.
    pub net_key: Option<String>,
    /// `PRIVITE_NET_ADDRESS`: where to listen.
    pub net_address: Option<String>,
}

/// What an [`Environment`] holds.
pub struct EnvironmentView {
    pub account_sk: Seq<char>,
    pub net_key: Option<Seq<char>>,
    pub net_address: Option<Seq<char>>,
}

/// The text of a setting, where it is set.
pub open spec fn setting(value: Option<String>) -> Option<Seq<char>> {
    match value {
        Some(text) => Some(text@),
        None => None,
    }
}

impl View for Environment {
    type V = EnvironmentView;

    open spec fn view(&self) -> EnvironmentView {
        EnvironmentView {
            account_sk: self.account_sk@,
            net_key: setting(self.net_key),
            net_address: setting(self.net_address),
        }
    }
}

/// How connections are made: TCP, then the encryption of a private network where there is one,
/// then noise and yamux.
#[derive(Debug, PartialEq, Eq)]
pub struct TransportSettings {
    /// The key of the private network; without one, connections are open to every peer.
    pub psk: Option<PreSharedKey>,
    pub tcp_nodelay: bool,
    /// Whether the base transport resolves host names by itself.
    pub resolve_names: bool,
    pub max_streams: usize,
}

/// What [`TransportSettings`] hold.
pub struct TransportSettingsView {
    pub psk: Option<Seq<u8>>,
    pub tcp_nodelay: bool,
    pub resolve_names: bool,
    pub max_streams: usize,
}

impl View for TransportSettings {
    type V = TransportSettingsView;

    open spec fn view(&self) -> TransportSettingsView {
        TransportSettingsView {
            psk: match self.psk {
                Some(psk) => Some(psk@),
                None => None,
            },
            tcp_nodelay: self.tcp_nodelay,
            resolve_names: self.resolve_names,
            max_streams: self.max_streams,
        }
    }
}

/// All that is needed to build a swarm.
#[derive(Debug, PartialEq, Eq)]
pub struct SwarmConfig {
    pub identity: AccountKey,
    pub transport: TransportSettings,
    pub behavior: AgentBehavior,
    pub idle_timeout_secs: u64,
}

/// What a [`SwarmConfig`] holds.
pub struct SwarmConfigView {
    pub identity: AccountKeyView,
    pub transport: TransportSettingsView,
    pub behavior: AgentBehaviorView,
    pub idle_timeout_secs: u64,
}

impl View for SwarmConfig {
    type V = SwarmConfigView;

    open spec fn view(&self) -> SwarmConfigView {
        SwarmConfigView {
            identity: self.identity@,
            transport: self.transport@,
            behavior: self.behavior@,
            idle_timeout_secs: self.idle_timeout_secs,
        }
    }
}

/// Whether the routing table answers the requests of others.
#[derive(Debug, Clone, Copy, PartialEq, Eq, Structural)]
pub enum Mode {
    Client,
    Server,
}

/// Why a swarm does not start.
#[derive(Debug, PartialEq, Eq)]
pub enum StartError {
    /// The account's secret key cannot be read.
    Key(KeyError),
    /// The address to dial or to listen on cannot be read.
    Address(AddressError),
    /// The swarm could not be built.
    Build,
    /// The boot address could not be dialed.
    Dial,
    /// The swarm could not listen.
    Listen,
}

/// What a [`StartError`] holds.
pub enum StartErrorView {
    Key(KeyErrorView),
    Address(AddressErrorView),
    Build,
    Dial,
    Listen,
}

impl View for StartError {
    type V = StartErrorView;

    open spec fn view(&self) -> StartErrorView {
        match self {
            StartError::Key(e) => StartErrorView::Key(e@),
            StartError::Address(e) => StartErrorView::Address(e@),
            StartError::Build => StartErrorView::Build,
            StartError::Dial => StartErrorView::Dial,
            StartError::Listen => StartErrorView::Listen,
        }
    }
}

/// What to do next.
pub enum Action {
    Build(SwarmConfig),
    Dial(Address),
    SetMode(Mode),
    Listen(Address),
    /// The swarm has started.
    Finish,
    /// The swarm does not start.
    Abort(StartError),
    /// Starting has ended before; nothing is left to do.
    Rest,
}

/// What an [`Action`] holds.
pub enum ActionView {
    Build(SwarmConfigView),
    Dial(Seq<ComponentView>),
    SetMode(Mode),
    Listen(Seq<ComponentView>),
    Finish,
    Abort(StartErrorView),
    Rest,
}

impl View for Action {
    type V = ActionView;

    open spec fn view(&self) -> ActionView {
        match self {
            Action::Build(config) => ActionView::Build(config@),
            Action::Dial(address) => ActionView::Dial(address@),
            Action::SetMode(mode) => ActionView::SetMode(*mode),
            Action::Listen(address) => ActionView::Listen(address@),
            Action::Finish => ActionView::Finish,
            Action::Abort(e) => ActionView::Abort(e@),
            Action::Rest => ActionView::Rest,
        }
    }
}

/// The step whose outcome is awaited, or how starting has ended.
#[derive(Debug, Clone, Copy, PartialEq, Eq, Structural)]
pub enum Phase {
    Building,
    Dialing,
    SettingMode,
    Listening,
    Running,
    Failed,
}

/// A swarm on its way up.
#[derive(Debug, PartialEq, Eq)]
pub struct Startup {
    pub phase: Phase,
    /// Whether the boot address is dialed.
    pub dial_boot: bool,
    /// The text of the address to listen on.
    pub listen: String,
}

/// What a [`Startup`] holds.
pub struct StartupView {
    pub phase: Phase,
    pub dial_boot: bool,
    pub listen: Seq<char>,
}

impl View for Startup {
    type V = StartupView;

    open spec fn view(&self) -> StartupView {
        StartupView { phase: self.phase, dial_boot: self.dial_boot, listen: self.listen@ }
    }
}

/// The key of the private network that the environment names; none where it names none or names
/// one that cannot be read.
pub open spec fn network_key(env: EnvironmentView) -> Option<Seq<u8>> {
    let text = match env.net_key {
        Some(text) => Some(vstd::utf8::encode_utf8(text)),
        None => None,
    };
    match psk_of(text) {
        Ok(key) => Some(key),
        Err(_) => None,
    }
}

/// The configuration of the swarm for an identity.
pub open spec fn config_for(
    identity: AccountKeyView,
    env: EnvironmentView,
    resolve_names: bool,
) -> SwarmConfigView {
    SwarmConfigView {
        identity,
        transport: TransportSettingsView {
            psk: network_key(env),
            tcp_nodelay: true,
            resolve_names,
            max_streams: MAX_STREAMS,
        },
        behavior: behavior_of(identity),
        idle_timeout_secs: IDLE_TIMEOUT_SECS,
    }
}

/// The text of the address to listen on.
pub open spec fn listen_text(env: EnvironmentView) -> Seq<char> {
    match env.net_address {
        Some(text) => text,
        None => DEFAULT_LISTEN_ADDRESS@,
    }
}

/// How starting begins: with building the swarm, unless the account's secret key cannot be read.
pub open spec fn begun(env: EnvironmentView, resolve_names: bool, dial_boot: bool) -> (
    StartupView,
    ActionView,
) {
    let listen = listen_text(env);
    match account_key_of(vstd::utf8::encode_utf8(env.account_sk)) {
        Ok(identity) => (
            StartupView { phase: Phase::Building, dial_boot, listen },
            ActionView::Build(config_for(identity, env, resolve_names)),
        ),
        Err(e) => (
            StartupView { phase: Phase::Failed, dial_boot, listen },
            ActionView::Abort(StartErrorView::Key(e)),
        ),
    }
}

/// The startup `s` after it has moved on to a phase.
pub open spec fn moved(s: StartupView, phase: Phase) -> StartupView {
    StartupView { phase, ..s }
}

/// The startup `s` after it has failed, and the action that says so.
pub open spec fn failed(s: StartupView, e: StartErrorView) -> (StartupView, ActionView) {
    (moved(s, Phase::Failed), ActionView::Abort(e))
}

/// How a startup goes on when the boot address has been read.
pub open spec fn dialing(s: StartupView, boot: ParsedView) -> (StartupView, ActionView) {
    match boot {
        Ok(address) => (moved(s, Phase::Dialing), ActionView::Dial(address)),
        Err(e) => failed(s, StartErrorView::Address(e)),
    }
}

/// How a startup goes on when the address to listen on has been read.
pub open spec fn listening(s: StartupView, listen: ParsedView) -> (StartupView, ActionView) {
    match listen {
        Ok(address) => (moved(s, Phase::Listening), ActionView::Listen(address)),
        Err(e) => failed(s, StartErrorView::Address(e)),
    }
}

/// How a startup goes on when it hears whether the step it awaits went well.
pub open spec fn advanced(s: StartupView, ok: bool) -> (StartupView, ActionView) {
    match s.phase {
        Phase::Building => if !ok {
            failed(s, StartErrorView::Build)
        } else if s.dial_boot {
            dialing(s, legacy_address(BOOT_ADDRESS@))
        } else {
            (moved(s, Phase::SettingMode), ActionView::SetMode(Mode::Server))
        },
        Phase::Dialing => if !ok {
            failed(s, StartErrorView::Dial)
        } else {
            (moved(s, Phase::SettingMode), ActionView::SetMode(Mode::Server))
        },
        // Setting the mode cannot fail.
        Phase::SettingMode => listening(s, parsed_multiaddr(s.listen)),
        Phase::Listening => if !ok {
            failed(s, StartErrorView::Listen)
        } else {
            (moved(s, Phase::Running), ActionView::Finish)
        },
        Phase::Running => (s, ActionView::Rest),
        Phase::Failed => (s, ActionView::Rest),
    }
}

/// Whether the step that a startup awaits can fail.
pub open spec fn can_fail(phase: Phase) -> bool {
    phase is Building || phase is Dialing || phase is Listening
}

/// How a startup goes on when it hears the outcome of the step it awaits: the error of a step
/// that can fail ends starting and is handed back, and anything else leads to the next action.
pub open spec fn reported<E>(s: StartupView, step: Result<(), E>) -> (
    StartupView,
    Result<ActionView, E>,
) {
    if can_fail(s.phase) && step is Err {
        (moved(s, Phase::Failed), Err(step->Err_0))
    } else {
        let next = advanced(s, step is Ok);
        (next.0, Ok(next.1))
    }
}

/// The view of what reporting a step gave.
pub open spec fn report_result<E>(res: Result<Action, E>) -> Result<ActionView, E> {
    match res {
        Ok(action) => Ok(action@),
        Err(e) => Err(e),
    }
}

/// Puts the configuration of a swarm together.
pub fn swarm_config(
    identity: AccountKey,
    psk: Option<PreSharedKey>,
    resolve_names: bool,
) -> (config: SwarmConfig)
    ensures
        config@ == (SwarmConfigView {
            identity: identity@,
            transport: TransportSettingsView {
                psk: match psk {
                    Some(psk) => Some(psk@),
                    None => None,
                },
                tcp_nodelay: true,
                resolve_names,
                max_streams: MAX_STREAMS,
            },
            behavior: behavior_of(identity@),
            idle_timeout_secs: IDLE_TIMEOUT_SECS,
        }),
{
    let transport = TransportSettings {
        psk,
        tcp_nodelay: true,
        resolve_names,
        max_streams: MAX_STREAMS,
    };
    let behavior = agent_behavior(&identity);
    SwarmConfig { identity, transport, behavior, idle_timeout_secs: IDLE_TIMEOUT_SECS }
}

/// Begins to start a swarm.
pub(crate) fn begin(env: &Environment, resolve_names: bool, dial_boot: bool) -> (res: (
    Startup,
    Action,
))
    ensures
        (res.0@, res.1@) == begun(env@, resolve_names, dial_boot),
        // A swarm speaks the agents' protocol, and its connections are encrypted with the key that
        // the environment holds.
        res.1 matches Action::Build(config) ==> {
            &&& config.behavior.kad.protocol@ == "/agent/connection/1.0.0"@
            &&& config.behavior.identify.protocol_version@ == "/agent/connection/1.0.0"@
            &&& config.behavior.kad.local_peer_id@ == config.identity.peer_id@
            &&& config.behavior.identify.public_key@ == config.identity.public_key@
            &&& config.transport.psk matches Some(psk) ==> env.net_key matches Some(text)
                && vstd::utf8::encode_utf8(text@) == base64_encoded(psk.key@)
            &&& config.transport.psk is None ==> env.net_key is None || psk_of(
                Some(vstd::utf8::encode_utf8(env.net_key->0@)),
            ) is Err
        },
{
    let listen = match &env.net_address {
        Some(text) => text.clone(),
        None => DEFAULT_LISTEN_ADDRESS.to_owned(),
    };
    match account_key(env.account_sk.as_str()) {
        Err(e) => (
            Startup { phase: Phase::Failed, dial_boot, listen },
            Action::Abort(StartError::Key(e)),
        ),
        Ok(identity) => {
            let psk = match get_psk(&env.net_key) {
                Ok(psk) => Some(psk),
                Err(_) => None,
            };
            let config = swarm_config(identity, psk, resolve_names);
            (Startup { phase: Phase::Building, dial_boot, listen }, Action::Build(config))
        },
    }
}

/// Begins to start the swarm of an agent, which dials the boot address once the swarm is built.
pub fn start_swarm(env: &Environment) -> (res: (Startup, Action))
    ensures
        (res.0@, res.1@) == begun(env@, false, true),
        // A swarm speaks the agents' protocol, and its connections are encrypted with the key that
        // the environment holds.
        res.1 matches Action::Build(config) ==> {
            &&& config.behavior.kad.protocol@ == "/agent/connection/1.0.0"@
            &&& config.behavior.identify.protocol_version@ == "/agent/connection/1.0.0"@
            &&& config.behavior.kad.local_peer_id@ == config.identity.peer_id@
            &&& config.behavior.identify.public_key@ == config.identity.public_key@
            &&& config.transport.psk matches Some(psk) ==> env.net_key matches Some(text)
                && vstd::utf8::encode_utf8(text@) == base64_encoded(psk.key@)
            &&& config.transport.psk is None ==> env.net_key is None || psk_of(
                Some(vstd::utf8::encode_utf8(env.net_key->0@)),
            ) is Err
        },
{
    begin(env, false, true)
}

impl Startup {
    fn fail(&mut self, e: StartError) -> (action: Action)
        ensures
            (final(self)@, action@) == failed(old(self)@, e@),
            final(self).phase is Failed,
            action == Action::Abort(e),
    {
        self.phase = Phase::Failed;
        Action::Abort(e)
    }

    /// Asks for the boot address to be dialed, or gives up where it cannot be read.
    pub fn dial(&mut self, boot: Result<Address, AddressError>) -> (action: Action)
        ensures
            (final(self)@, action@) == dialing(old(self)@, address_result(boot)),
            match boot {
                Ok(address) => final(self).phase is Dialing && action == Action::Dial(address),
                Err(e) => final(self).phase is Failed && action == Action::Abort(
                    StartError::Address(e),
                ),
            },
    {
        match boot {
            Ok(address) => {
                self.phase = Phase::Dialing;
                Action::Dial(address)
            },
            Err(e) => self.fail(StartError::Address(e)),
        }
    }

    /// Asks the swarm to listen, or gives up where the address cannot be read.
    pub fn listen_on(&mut self, listen: Result<Address, AddressError>) -> (action: Action)
        ensures
            (final(self)@, action@) == listening(old(self)@, address_result(listen)),
            match listen {
                Ok(address) => final(self).phase is Listening && action == Action::Listen(address),
                Err(e) => final(self).phase is Failed && action == Action::Abort(
                    StartError::Address(e),
                ),
            },
    {
        match listen {
            Ok(address) => {
                self.phase = Phase::Listening;
                Action::Listen(address)
            },
            Err(e) => self.fail(StartError::Address(e)),
        }
    }

    /// Takes in whether the step that was asked for went well, and says what to do next.
    pub fn advance(&mut self, ok: bool) -> (action: Action)
        ensures
            (final(self)@, action@) == advanced(old(self)@, ok),
    {
        match self.phase {
            Phase::Building => {
                if !ok {
                    return self.fail(StartError::Build);
                }
                if self.dial_boot {
                    return self.dial(parse_legacy_multiaddr(BOOT_ADDRESS));
                }
                self.phase = Phase::SettingMode;
                Action::SetMode(Mode::Server)
            },
            Phase::Dialing => {
                if !ok {
                    return self.fail(StartError::Dial);
                }
                self.phase = Phase::SettingMode;
                Action::SetMode(Mode::Server)
            },
            Phase::SettingMode => {
                let listen = multiaddr_from_str(self.listen.as_str());
                self.listen_on(listen)
            },
            Phase::Listening => {
                if !ok {
                    return self.fail(StartError::Listen);
                }
                self.phase = Phase::Running;
                Action::Finish
            },
            Phase::Running => Action::Rest,
            Phase::Failed => Action::Rest,
        }
    }

    /// Takes in the outcome of the step that was asked for, and says what to do next. Where the
    /// step failed, its own error is why the swarm does not start.
    pub fn report<E>(&mut self, step: Result<(), E>) -> (res: Result<Action, E>)
        ensures
            (final(self)@, report_result(res)) == reported(old(self)@, step),
            // The error of building, dialing or listening comes back as it is.
            step is Err && (old(self).phase is Building || old(self).phase is Dialing
                || old(self).phase is Listening) ==> res == Err::<Action, E>(step->Err_0)
                && final(self).phase is Failed,
            step is Ok || !(old(self).phase is Building || old(self).phase is Dialing
                || old(self).phase is Listening) ==> res is Ok,
    {
        match step {
            Ok(()) => Ok(self.advance(true)),
            Err(e) => match self.phase {
                Phase::Building | Phase::Dialing | Phase::Listening => {
                    self.phase = Phase::Failed;
                    Err(e)
                },
                _ => Ok(self.advance(false)),
            },
        }
    }
}

/// Whether starting has come to its end.
pub open spec fn ended(phase: Phase) -> bool {
    phase is Running || phase is Failed
}

/// How many reports a startup can take in, at most, before it ends.
pub open spec fn steps_left(phase: Phase) -> nat {
    match phase {
        Phase::Building => 4,
        Phase::Dialing => 3,
        Phase::SettingMode => 2,
        Phase::Listening => 1,
        Phase::Running => 0,
        Phase::Failed => 0,
    }
}

/// The startup after a series of reports.
pub open spec fn after(s: StartupView, reports: Seq<bool>) -> StartupView
    decreases reports.len(),
{
    if reports.len() == 0 {
        s
    } else {
        advanced(after(s, reports.drop_last()), reports.last()).0
    }
}

/// Every report brings a startup closer to its end.
pub proof fn law_every_report_advances(s: StartupView, ok: bool)
    ensures
        !ended(s.phase) ==> steps_left(advanced(s, ok).0.phase) < steps_left(s.phase),
        ended(s.phase) <==> steps_left(s.phase) == 0,
{
}

/// Whatever is reported, four reports bring every startup to its end.
pub proof fn law_startup_ends(s: StartupView, reports: Seq<bool>)
    requires
        reports.len() >= 4,
    ensures
        ended(after(s, reports).phase),
{
    lemma_steps_left_after(s, reports);
    law_every_report_advances(after(s, reports), true);
}

proof fn lemma_steps_left_after(s: StartupView, reports: Seq<bool>)
    ensures
        steps_left(after(s, reports).phase) == 0 || steps_left(after(s, reports).phase)
            + reports.len() <= 4,
    decreases reports.len(),
{
    if reports.len() > 0 {
        lemma_steps_left_after(s, reports.drop_last());
        law_every_report_advances(after(s, reports.drop_last()), reports.last());
    }
}

/// A startup that has ended stays as it is and asks for nothing more.
pub proof fn law_the_end_is_final(s: StartupView, ok: bool)
    requires
        ended(s.phase),
    ensures
        advanced(s, ok) == (s, ActionView::Rest),
{
}

/// The caller is told of success and failure just when they come about.
pub proof fn law_the_action_tells_the_end(s: StartupView, ok: bool)
    requires
        !ended(s.phase),
    ensures
        advanced(s, ok).1 is Finish <==> advanced(s, ok).0.phase is Running,
        advanced(s, ok).1 is Abort <==> advanced(s, ok).0.phase is Failed,
        !(advanced(s, ok).1 is Rest),
{
}

/// A step that could fail and did ends starting with an abort that names the step.
pub proof fn law_a_failed_step_aborts(s: StartupView)
    ensures
        s.phase is Building ==> advanced(s, false) == failed(s, StartErrorView::Build),
        s.phase is Dialing ==> advanced(s, false) == failed(s, StartErrorView::Dial),
        s.phase is Listening ==> advanced(s, false) == failed(s, StartErrorView::Listen),
{
}

/// A startup that is given the outcome of a step moves as one that is only told whether the step
/// went well, and is asked for the same next. It hands back an error just where a step that can
/// fail did.
pub proof fn law_a_report_moves_as_advancing_does<E>(s: StartupView, step: Result<(), E>)
    ensures
        reported(s, step).0 == advanced(s, step is Ok).0,
        reported(s, step).1 matches Ok(action) ==> action == advanced(s, step is Ok).1,
        reported(s, step).1 is Err <==> can_fail(s.phase) && step is Err,
{
}

/// The error of a step that failed is handed back as it is, and nothing is asked for afterwards.
pub proof fn law_the_error_of_a_step_is_handed_back<E>(s: StartupView, e: E, later: Result<(), E>)
    requires
        can_fail(s.phase),
    ensures
        reported(s, Err(e)).1 == Err::<ActionView, E>(e),
        reported(reported(s, Err(e)).0, later) == (
            reported(s, Err(e)).0,
            Ok::<ActionView, E>(ActionView::Rest),
        ),
{
}

/// An agent whose boot address is read and cannot be dialed fails with the error of dialing and
/// listens nowhere. One that is told an unreadable address to listen on fails with the error of
/// reading it, after it has dialed, and does not fall back on another address.
pub proof fn law_agent_fails<E>(
    s: StartupView,
    boot: Seq<ComponentView>,
    dial_error: E,
    later: Result<(), E>,
    unreadable: AddressErrorView,
)
    requires
        s.phase is Building,
        s.dial_boot,
        legacy_address(BOOT_ADDRESS@) == Ok::<Seq<ComponentView>, AddressErrorView>(boot),
    ensures
        ({
            let built = reported(s, Ok::<(), E>(()));
            let not_dialed = reported(built.0, Err(dial_error));
            let dialed = reported(built.0, Ok::<(), E>(()));
            let mode_set = reported(dialed.0, Ok::<(), E>(()));
            &&& built.1 == Ok::<ActionView, E>(ActionView::Dial(boot))
            &&& not_dialed.1 == Err::<ActionView, E>(dial_error)
            &&& reported(not_dialed.0, later) == (
                not_dialed.0,
                Ok::<ActionView, E>(ActionView::Rest),
            )
            &&& dialed.1 == Ok::<ActionView, E>(ActionView::SetMode(Mode::Server))
            &&& parsed_multiaddr(s.listen) == Err::<Seq<ComponentView>, AddressErrorView>(
                unreadable,
            ) ==> {
                &&& mode_set.1 == Ok::<ActionView, E>(
                    ActionView::Abort(StartErrorView::Address(unreadable)),
                )
                &&& reported(mode_set.0, later) == (
                    mode_set.0,
                    Ok::<ActionView, E>(ActionView::Rest),
                )
            }
        }),
{
}

/// Where every step goes well and the addresses can be read, an agent dials the boot address,
/// has its routing table answer others, and listens, in this order and once each.
pub proof fn law_agent_starts(
    s: StartupView,
    boot: Seq<ComponentView>,
    listen: Seq<ComponentView>,
)
    requires
        s.phase is Building,
        s.dial_boot,
        legacy_address(BOOT_ADDRESS@) == Ok::<Seq<ComponentView>, AddressErrorView>(boot),
        parsed_multiaddr(s.listen) == Ok::<Seq<ComponentView>, AddressErrorView>(listen),
    ensures
        ({
            let built = advanced(s, true);
            let dialed = advanced(built.0, true);
            let mode_set = advanced(dialed.0, true);
            let listens = advanced(mode_set.0, true);
            &&& built.1 == ActionView::Dial(boot)
            &&& dialed.1 == ActionView::SetMode(Mode::Server)
            &&& mode_set.1 == ActionView::Listen(listen)
            &&& listens.1 == ActionView::Finish
        }),
{
}

/// Where every step goes well and the address can be read, the event loop's swarm has its
/// routing table answer others and listens, in this order and once each; it dials nobody.
pub proof fn law_event_loop_starts(s: StartupView, listen: Seq<ComponentView>)
    requires
        s.phase is Building,
        !s.dial_boot,
        parsed_multiaddr(s.listen) == Ok::<Seq<ComponentView>, AddressErrorView>(listen),
    ensures
        ({
            let built = advanced(s, true);
            let mode_set = advanced(built.0, true);
            let listens = advanced(mode_set.0, true);
            &&& built.1 == ActionView::SetMode(Mode::Server)
            &&& mode_set.1 == ActionView::Listen(listen)
            &&& listens.1 == ActionView::Finish
        }),
{
}

/// A node listens only after its routing table was set to answer others.
pub proof fn law_server_before_listening(s: StartupView, ok: bool)
    ensures
        advanced(s, ok).1 is Listen ==> s.phase is SettingMode,
        advanced(s, ok).0.phase is SettingMode <==> advanced(s, ok).1 == ActionView::SetMode(
            Mode::Server,
        ),
{
}

/// The swarm of an agent and that of the event loop are the same but for who resolves names, and
/// fail to begin in the same environments with the same error.
pub proof fn law_both_swarms_agree(env: EnvironmentView)
    ensures
        match begun(env, false, true).1 {
            ActionView::Build(config) => begun(env, true, false).1 == ActionView::Build(
                SwarmConfigView {
                    transport: TransportSettingsView { resolve_names: true, ..config.transport },
                    ..config
                },
            ),
            action => begun(env, true, false).1 == action,
        },
{
}

/// Whether starting begins is a matter of the account's secret key alone. A network key that is
/// missing or cannot be read does not keep a node from starting: it starts without one.
pub proof fn law_the_network_key_never_aborts(
    env: EnvironmentView,
    net_key: Option<Seq<char>>,
    resolve_names: bool,
    dial_boot: bool,
)
    ensures
        ({
            let other = EnvironmentView { net_key, ..env };
            &&& begun(other, resolve_names, dial_boot).0 == begun(env, resolve_names, dial_boot).0
            &&& begun(env, resolve_names, dial_boot).1 is Abort ==> begun(
                other,
                resolve_names,
                dial_boot,
            ).1 == begun(env, resolve_names, dial_boot).1
        }),
        begun(env, resolve_names, dial_boot).1 matches ActionView::Build(config)
            ==> config.transport.psk == network_key(env),
{
}

/// All that a swarm speaks is in the name of the key that it was started with.
pub proof fn law_one_identity(env: EnvironmentView, resolve_names: bool, dial_boot: bool)
    ensures
        begun(env, resolve_names, dial_boot).1 matches ActionView::Build(config) ==> {
            &&& account_key_of(vstd::utf8::encode_utf8(env.account_sk)) == Ok::<
                AccountKeyView,
                KeyErrorView,
            >(config.identity)
            &&& config.behavior.kad.local_peer_id == config.identity.peer_id
            &&& config.behavior.identify.public_key == config.identity.public_key
        },
{
}

/// Whatever the environment, a swarm that is built speaks the agents' protocol,
/// `/agent/connection/1.0.0`, in its routing table and to be identified. It bootstraps its routing
/// table every 300 seconds, publishes and replicates records every 120, identifies peers every 30
/// and tells them at once of new addresses, pings every 10, and closes a connection that is not
/// used for 60. Small packets go out at once, and a connection carries up to 1048576 streams.
pub proof fn law_every_swarm_speaks_the_agents_protocol(
    env: EnvironmentView,
    resolve_names: bool,
    dial_boot: bool,
)
    ensures
        begun(env, resolve_names, dial_boot).1 matches ActionView::Build(config) ==> {
            &&& config.behavior.kad.protocol == "/agent/connection/1.0.0"@
            &&& config.behavior.kad.local_peer_id == config.identity.peer_id
            &&& config.behavior.kad.bootstrap_secs == 300
            &&& config.behavior.kad.publication_secs == 120
            &&& config.behavior.kad.replication_secs == 120
            &&& config.behavior.identify.protocol_version == "/agent/connection/1.0.0"@
            &&& config.behavior.identify.public_key == config.identity.public_key
            &&& config.behavior.identify.push_listen_addr_updates
            &&& config.behavior.identify.interval_secs == 30
            &&& config.behavior.ping.interval_secs == 10
            &&& config.transport.tcp_nodelay
            &&& config.transport.resolve_names == resolve_names
            &&& config.transport.max_streams == 1048576
            &&& config.idle_timeout_secs == 60
        },
{
}

/// Any two swarms that are built, whatever their environments, speak alike: they differ in their
/// identity, in the key of their network and in who resolves names.
pub proof fn law_any_two_swarms_speak_alike(
    left: EnvironmentView,
    right: EnvironmentView,
    resolve_names: bool,
    dial_boot: bool,
)
    ensures
        begun(left, resolve_names, dial_boot).1 matches ActionView::Build(l) ==> (begun(
            right,
            resolve_names,
            dial_boot,
        ).1 matches ActionView::Build(r) ==> {
            &&& l.behavior.kad.protocol == r.behavior.kad.protocol
            &&& l.behavior.identify.protocol_version == r.behavior.identify.protocol_version
            &&& l.transport == (TransportSettingsView { psk: l.transport.psk, ..r.transport })
            &&& l.idle_timeout_secs == r.idle_timeout_secs
            &&& l.identity == r.identity ==> l.behavior == r.behavior
        }),
{
}

/// The swarm is encrypted with a key just where the environment holds the base64 text of that
/// key, and with no key where it holds none, or a text that is base64 of no 32 bytes.
pub proof fn law_the_network_key_is_the_one_given(
    env: EnvironmentView,
    key: Seq<u8>,
    resolve_names: bool,
    dial_boot: bool,
)
    requires
        key.len() == 32,
    ensures
        begun(env, resolve_names, dial_boot).1 matches ActionView::Build(config) ==> {
            &&& config.transport.psk == Some(key) <==> (env.net_key matches Some(text)
                && vstd::utf8::encode_utf8(text) == base64_encoded(key))
            &&& config.transport.psk matches Some(psk) ==> psk.len() == 32 && (
            env.net_key matches Some(text) && vstd::utf8::encode_utf8(text) == base64_encoded(psk))
            &&& env.net_key is None ==> config.transport.psk is None
        },
{
    law_what_is_no_psk_is_refused(key, key);
    match env.net_key {
        Some(text) => {
            let bytes = vstd::utf8::encode_utf8(text);
            law_psk_is_what_was_encoded(bytes, key);
            law_a_key_has_one_text(bytes, bytes);
        },
        None => {},
    }
}

/// Two nodes share the key of a private network just where they were given the same text for it,
/// as long as both could be read.
pub proof fn law_nodes_of_one_network_share_its_key(
    left: EnvironmentView,
    right: EnvironmentView,
    resolve_names: bool,
    dial_boot: bool,
)
    ensures
        begun(left, resolve_names, dial_boot).1 matches ActionView::Build(l) ==> (begun(
            right,
            resolve_names,
            dial_boot,
        ).1 matches ActionView::Build(r) ==> {
            &&& left.net_key == right.net_key ==> l.transport.psk == r.transport.psk
            &&& l.transport.psk is Some && l.transport.psk == r.transport.psk
                ==> vstd::utf8::encode_utf8(left.net_key->0) == vstd::utf8::encode_utf8(
                right.net_key->0,
            )
        }),
{
    if left.net_key is Some && right.net_key is Some {
        law_a_key_has_one_text(
            vstd::utf8::encode_utf8(left.net_key->0),
            vstd::utf8::encode_utf8(right.net_key->0),
        );
    }
}

/// Starting begins with building a swarm for the account's key, and where that key cannot be read
/// it fails at once, for the reason that the key gives. The address to listen on is taken from
/// the environment, and is `/ip4/0.0.0.0/tcp/8000` where that holds none.
pub proof fn law_how_starting_begins(env: EnvironmentView, resolve_names: bool, dial_boot: bool)
    ensures
        ({
            let (s, action) = begun(env, resolve_names, dial_boot);
            &&& s.dial_boot == dial_boot
            &&& env.net_address matches Some(text) ==> s.listen == text
            &&& env.net_address is None ==> s.listen == "/ip4/0.0.0.0/tcp/8000"@
            &&& match account_key_of(vstd::utf8::encode_utf8(env.account_sk)) {
                Ok(key) => s.phase is Building && (action matches ActionView::Build(config)
                    && config.identity == key),
                Err(e) => s.phase is Failed && action == ActionView::Abort(StartErrorView::Key(e)),
            }
        }),
{
}

/// An address that was read is dialed or listened on as it is, and the error of one that could
/// not be read is why the swarm does not start.
pub proof fn law_addresses_are_used_as_read(
    s: StartupView,
    address: Seq<ComponentView>,
    e: AddressErrorView,
)
    ensures
        dialing(s, Ok(address)).1 == ActionView::Dial(address),
        dialing(s, Ok(address)).0 == (StartupView { phase: Phase::Dialing, ..s }),
        dialing(s, Err(e)).1 == ActionView::Abort(StartErrorView::Address(e)),
        dialing(s, Err(e)).0 == (StartupView { phase: Phase::Failed, ..s }),
        listening(s, Ok(address)).1 == ActionView::Listen(address),
        listening(s, Ok(address)).0 == (StartupView { phase: Phase::Listening, ..s }),
        listening(s, Err(e)).1 == ActionView::Abort(StartErrorView::Address(e)),
        listening(s, Err(e)).0 == (StartupView { phase: Phase::Failed, ..s }),
{
}

/// What is asked for depends on what was awaited: a swarm that was built dials
/// `/ip4/192.168.1.136/tcp/8002` if it dials at all, one that has dialed, or need not, has its
/// routing table answer others, one whose routing table does so listens where it was told, and
/// one that listens has started. A step that failed ends starting. Nothing else about a startup
/// changes on the way.
pub proof fn law_each_step_leads_to_the_next(s: StartupView, ok: bool)
    ensures
        ({
            let (next, action) = advanced(s, ok);
            &&& next.dial_boot == s.dial_boot
            &&& next.listen == s.listen
            &&& s.phase is Building && !ok ==> next.phase is Failed && action == ActionView::Abort(
                StartErrorView::Build,
            )
            &&& s.phase is Dialing && !ok ==> next.phase is Failed && action == ActionView::Abort(
                StartErrorView::Dial,
            )
            &&& s.phase is Listening && !ok ==> next.phase is Failed && action == ActionView::Abort(
                StartErrorView::Listen,
            )
            &&& s.phase is Building && ok && s.dial_boot ==> match legacy_address(
                "/ip4/192.168.1.136/tcp/8002"@,
            ) {
                Ok(address) => next.phase is Dialing && action == ActionView::Dial(address),
                Err(e) => next.phase is Failed && action == ActionView::Abort(
                    StartErrorView::Address(e),
                ),
            }
            &&& ok && (s.phase is Building && !s.dial_boot || s.phase is Dialing)
                ==> next.phase is SettingMode && action == ActionView::SetMode(Mode::Server)
            &&& s.phase is SettingMode ==> match parsed_multiaddr(s.listen) {
                Ok(address) => next.phase is Listening && action == ActionView::Listen(address),
                Err(e) => next.phase is Failed && action == ActionView::Abort(
                    StartErrorView::Address(e),
                ),
            }
            &&& s.phase is Listening && ok ==> next.phase is Running && action == ActionView::Finish
            &&& s.phase is Running || s.phase is Failed ==> next == s && action == ActionView::Rest
        }),
{
}

/// The error of building, dialing or listening is handed back as it is and ends starting. Any
/// other outcome leads to the action that telling of it leads to.
pub proof fn law_only_failed_steps_hand_back_an_error<E>(s: StartupView, step: Result<(), E>)
    ensures
        ({
            let (next, res) = reported(s, step);
            match step {
                Err(e) if s.phase is Building || s.phase is Dialing || s.phase is Listening => res
                    == Err::<ActionView, E>(e) && next == (StartupView { phase: Phase::Failed, ..s }),
                _ => res == Ok::<ActionView, E>(advanced(s, step is Ok).1) && next == advanced(
                    s,
                    step is Ok,
                ).0,
            }
        }),
{
}

proof fn lemma_place_is_kept(s: StartupView, reports: Seq<bool>)
    ensures
        after(s, reports).listen == s.listen,
        after(s, reports).dial_boot == s.dial_boot,
        !s.dial_boot && !(s.phase is Dialing) ==> !(after(s, reports).phase is Dialing),
    decreases reports.len(),
{
    if reports.len() > 0 {
        lemma_place_is_kept(s, reports.drop_last());
    }
}

/// However the steps go, a node listens nowhere but where its environment says, or at
/// `/ip4/0.0.0.0/tcp/8000` where that says nothing. It dials nobody but
/// `/ip4/192.168.1.136/tcp/8002`, and nobody at all unless it is to dial.
pub proof fn law_a_node_listens_where_it_is_told(
    env: EnvironmentView,
    resolve_names: bool,
    dial_boot: bool,
    reports: Seq<bool>,
    ok: bool,
)
    ensures
        ({
            let s = after(begun(env, resolve_names, dial_boot).0, reports);
            let text = match env.net_address {
                Some(text) => text,
                None => "/ip4/0.0.0.0/tcp/8000"@,
            };
            &&& advanced(s, ok).1 matches ActionView::Listen(address) ==> parsed_multiaddr(text)
                == Ok::<Seq<ComponentView>, AddressErrorView>(address)
            &&& advanced(s, ok).1 matches ActionView::Dial(address) ==> dial_boot
                && legacy_address("/ip4/192.168.1.136/tcp/8002"@) == Ok::<
                Seq<ComponentView>,
                AddressErrorView,
            >(address)
        }),
{
    lemma_place_is_kept(begun(env, resolve_names, dial_boot).0, reports);
}

/// The views of an environment, a configuration and a startup show their settings.
pub proof fn law_settings_are_shown(env: Environment, config: SwarmConfig, startup: Startup)
    ensures
        env@.account_sk == env.account_sk@,
        env@.net_key == match env.net_key {
            Some(text) => Some(text@),
            None => None,
        },
        env@.net_address == match env.net_address {
            Some(text) => Some(text@),
            None => None,
        },
        config@.identity == config.identity@,
        config@.behavior == config.behavior@,
        config@.idle_timeout_secs == config.idle_timeout_secs,
        config@.transport.psk == match config.transport.psk {
            Some(psk) => Some(psk.key@),
            None => None,
        },
        config@.transport.tcp_nodelay == config.transport.tcp_nodelay,
        config@.transport.resolve_names == config.transport.resolve_names,
        config@.transport.max_streams == config.transport.max_streams,
        startup@.phase == startup.phase,
        startup@.dial_boot == startup.dial_boot,
        startup@.listen == startup.listen@,
{
}

/// The view of an action shows its kind and what it is about, and that of an error its cause.
pub proof fn law_actions_are_shown<E>(action: Action, error: StartError, e: E)
    ensures
        match action {
            Action::Build(config) => action@ == ActionView::Build(config@),
            Action::Dial(address) => action@ == ActionView::Dial(address@),
            Action::SetMode(mode) => action@ == ActionView::SetMode(mode),
            Action::Listen(address) => action@ == ActionView::Listen(address@),
            Action::Finish => action@ is Finish,
            Action::Abort(error) => action@ == ActionView::Abort(error@),
            Action::Rest => action@ is Rest,
        },
        match error {
            StartError::Key(cause) => error@ == StartErrorView::Key(cause@),
            StartError::Address(cause) => error@ == StartErrorView::Address(cause@),
            StartError::Build => error@ is Build,
            StartError::Dial => error@ is Dial,
            StartError::Listen => error@ is Listen,
        },
        report_result::<E>(Ok(action)) == Ok::<ActionView, E>(action@),
        report_result::<E>(Err(e)) == Err::<ActionView, E>(e),
{
}

}

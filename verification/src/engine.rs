//! The reconciliation of one network after another.
//!
//! The engine never talks to the outside itself. It says what it needs next, as an [`Action`],
//! and is told what came back, as an [`Event`]; between the two it only compares. For each
//! network it asks for the releases of the source repository, then for those of the packaged
//! repository, and stops if both channels stand at the same tag. Otherwise it asks the chain for
//! its runtime version, and asks for a release only if the chain already runs the source
//! version.

use vstd::prelude::*;
use vstd::string::StringExecFns;
use crate::github::{
    dispatch_of, packaged_repository, releases_api, source_repository, Dispatch, DispatchView,
    GitHub,
};
use crate::release::{
    latest_darwinia_release_of, release_views, select, GitHubRelease, ReleaseView, Version,
    VersionView,
};
use crate::text::{begins_with, same_text, starts_with};
use crate::error::{TriggerError, WatchError, WatchErrorView};

verus! {

/// What the engine asks its caller to do next.
#[derive(Debug)]
pub enum Action {
    /// Fetch the list of releases at this address, newest first.
    ListReleases(String),
    /// Ask the node at this address for the version of its runtime.
    ReadRuntimeVersion(String),
    /// Send this workflow dispatch, once.
    Release(Dispatch),
    /// Nothing: the reconciliation has reached its end.
    Stop,
}

/// What an action is in contracts.
pub enum ActionView {
    ListReleases(Seq<char>),
    ReadRuntimeVersion(Seq<char>),
    Release(DispatchView),
    Stop,
}

impl View for Action {
    type V = ActionView;

    open spec fn view(&self) -> ActionView {
        match self {
            Action::ListReleases(api) => ActionView::ListReleases(api@),
            Action::ReadRuntimeVersion(uri) => ActionView::ReadRuntimeVersion(uri@),
            Action::Release(dispatch) => ActionView::Release(dispatch@),
            Action::Stop => ActionView::Stop,
        }
    }
}

/// What came back from the last action.
#[derive(Debug)]
pub enum Event {
    /// The releases that were listed, in the order of the listing.
    Releases(Vec<GitHubRelease>),
    /// The version of the runtime that the chain runs.
    RuntimeVersion(u32),
    /// The dispatch was accepted.
    Released,
    /// The call failed; the text is the cause, in the caller's own words.
    Failed(String),
}

/// What an event is in contracts.
pub enum EventView {
    Releases(Seq<ReleaseView>),
    RuntimeVersion(u32),
    Released,
    Failed(Seq<char>),
}

impl View for Event {
    type V = EventView;

    open spec fn view(&self) -> EventView {
        match self {
            Event::Releases(list) => EventView::Releases(release_views(list@)),
            Event::RuntimeVersion(version) => EventView::RuntimeVersion(*version),
            Event::Released => EventView::Released,
            Event::Failed(cause) => EventView::Failed(cause@),
        }
    }
}

/// How far the reconciliation of one network has come. The first four states wait for an
/// answer; the last four are final.
#[derive(Debug)]
pub enum State {
    /// Waiting for the releases of the source repository.
    Start,
    /// Waiting for the releases of the packaged repository.
    SourceFetched { source: Version },
    /// The two tags differ; waiting for the version of the chain.
    PackagedFetched { source: Version, packaged: Version },
    /// The chain runs the source version; waiting for the answer to the dispatch.
    OnChainFetched { source: Version, packaged: Version, on_chain: u32 },
    /// The packaged repository already holds the source tag.
    UpToDate { source: Version, packaged: Version },
    /// The chain does not run the source version yet.
    Behind { source: Version, packaged: Version, on_chain: u32 },
    /// A release of the source tag was asked for; `trigger` tells whether the dispatch went
    /// through, and why not where it did not.
    Triggered { source: Version, packaged: Version, on_chain: u32, trigger: Result<(), TriggerError> },
    /// The reconciliation was given up.
    Failed(WatchError),
}

/// What a state is in contracts.
pub enum StateView {
    Start,
    SourceFetched { source: VersionView },
    PackagedFetched { source: VersionView, packaged: VersionView },
    OnChainFetched { source: VersionView, packaged: VersionView, on_chain: u32 },
    UpToDate { source: VersionView, packaged: VersionView },
    Behind { source: VersionView, packaged: VersionView, on_chain: u32 },
    Triggered {
        source: VersionView,
        packaged: VersionView,
        on_chain: u32,
        trigger: Result<(), Seq<char>>,
    },
    Failed(WatchErrorView),
}

/// What the answer to a dispatch is in contracts: nothing, or the cause of the failure.
pub open spec fn trigger_view(trigger: Result<(), TriggerError>) -> Result<(), Seq<char>> {
    match trigger {
        Ok(_) => Ok(()),
        Err(e) => Err(e.cause@),
    }
}

impl View for State {
    type V = StateView;

    open spec fn view(&self) -> StateView {
        match self {
            State::Start => StateView::Start,
            State::SourceFetched { source } => StateView::SourceFetched { source: source@ },
            State::PackagedFetched { source, packaged } => StateView::PackagedFetched {
                source: source@,
                packaged: packaged@,
            },
            State::OnChainFetched { source, packaged, on_chain } => StateView::OnChainFetched {
                source: source@,
                packaged: packaged@,
                on_chain: *on_chain,
            },
            State::UpToDate { source, packaged } => StateView::UpToDate {
                source: source@,
                packaged: packaged@,
            },
            State::Behind { source, packaged, on_chain } => StateView::Behind {
                source: source@,
                packaged: packaged@,
                on_chain: *on_chain,
            },
            State::Triggered { source, packaged, on_chain, trigger } => StateView::Triggered {
                source: source@,
                packaged: packaged@,
                on_chain: *on_chain,
                trigger: trigger_view(*trigger),
            },
            State::Failed(error) => StateView::Failed(error@),
        }
    }
}

impl StateView {
    /// The reconciliation has ended in this state.
    pub open spec fn is_final(self) -> bool {
        match self {
            StateView::UpToDate { .. } => true,
            StateView::Behind { .. } => true,
            StateView::Triggered { .. } => true,
            StateView::Failed(_) => true,
            _ => false,
        }
    }
}

/// A network whose name begins with `koi` follows the prerelease channel.
pub open spec fn follows_prereleases(network: Seq<char>) -> bool {
    begins_with(network, "koi"@)
}

/// The address of a node of `network`.
pub open spec fn rpc_endpoint(network: Seq<char>) -> Seq<char> {
    if network == "darwinia"@ {
        "https://rpc.darwinia.network"@
    } else {
        "https://"@ + network + "-rpc.darwinia.network"@
    }
}

/// The failure that an answer stands for where the state was waiting for another one: the
/// failed call itself, with its cause, or an answer out of turn.
pub open spec fn failure_of(event: EventView) -> WatchErrorView {
    match event {
        EventView::Failed(cause) => WatchErrorView::CollaboratorFailure(cause),
        _ => WatchErrorView::UnexpectedEvent,
    }
}

/// The first thing to ask for any network: the releases of the source repository.
pub open spec fn first_action() -> ActionView {
    ActionView::ListReleases(releases_api(source_repository()))
}

/// After the source releases: the latest source version, and the packaged releases next.
pub open spec fn after_source(network: Seq<char>, list: Seq<ReleaseView>) -> (StateView, ActionView) {
    match select(list, None, follows_prereleases(network)) {
        Ok(source) => (
            StateView::SourceFetched { source },
            ActionView::ListReleases(releases_api(packaged_repository())),
        ),
        Err(error) => (StateView::Failed(error@), ActionView::Stop),
    }
}

/// After the packaged releases, cut from the branch named like the network: done where both
/// channels hold the same tag, whatever the tags decode to; the chain's version next where they
/// differ.
pub open spec fn after_packaged(
    network: Seq<char>,
    source: VersionView,
    list: Seq<ReleaseView>,
) -> (StateView, ActionView) {
    match select(list, Some(network), follows_prereleases(network)) {
        Ok(packaged) => if source.tag == packaged.tag {
            (StateView::UpToDate { source, packaged }, ActionView::Stop)
        } else {
            (
                StateView::PackagedFetched { source, packaged },
                ActionView::ReadRuntimeVersion(rpc_endpoint(network)),
            )
        },
        Err(error) => (StateView::Failed(error@), ActionView::Stop),
    }
}

/// After the chain's version: a release of the source tag where the chain runs exactly the
/// source version, and nothing where it does not.
pub open spec fn after_on_chain(
    network: Seq<char>,
    source: VersionView,
    packaged: VersionView,
    on_chain: u32,
) -> (StateView, ActionView) {
    if on_chain == source.spec {
        (
            StateView::OnChainFetched { source, packaged, on_chain },
            ActionView::Release(dispatch_of(network, source.tag)),
        )
    } else {
        (StateView::Behind { source, packaged, on_chain }, ActionView::Stop)
    }
}

/// One step of the reconciliation of `network`: the state that follows `state` on `event`, and
/// what to do next. A failed call ends the reconciliation, and so does an answer that the state
/// was not waiting for; only a failed dispatch is kept as part of the outcome. The cause of a
/// failure is handed on as it came. A final state stays as it is.
pub open spec fn step(network: Seq<char>, state: StateView, event: EventView) -> (
    StateView,
    ActionView,
) {
    match state {
        StateView::Start => match event {
            EventView::Releases(list) => after_source(network, list),
            _ => (StateView::Failed(failure_of(event)), ActionView::Stop),
        },
        StateView::SourceFetched { source } => match event {
            EventView::Releases(list) => after_packaged(network, source, list),
            _ => (StateView::Failed(failure_of(event)), ActionView::Stop),
        },
        StateView::PackagedFetched { source, packaged } => match event {
            EventView::RuntimeVersion(on_chain) => after_on_chain(
                network,
                source,
                packaged,
                on_chain,
            ),
            _ => (StateView::Failed(failure_of(event)), ActionView::Stop),
        },
        StateView::OnChainFetched { source, packaged, on_chain } => match event {
            EventView::Released => (
                StateView::Triggered { source, packaged, on_chain, trigger: Ok(()) },
                ActionView::Stop,
            ),
            EventView::Failed(cause) => (
                StateView::Triggered { source, packaged, on_chain, trigger: Err(cause) },
                ActionView::Stop,
            ),
            _ => (StateView::Failed(WatchErrorView::UnexpectedEvent), ActionView::Stop),
        },
        _ => (state, ActionView::Stop),
    }
}

impl State {
    /// Whether the reconciliation has ended in this state.
    pub fn is_final(&self) -> (r: bool)
        ensures
            r == self@.is_final(),
    {
        match self {
            State::UpToDate { .. } => true,
            State::Behind { .. } => true,
            State::Triggered { .. } => true,
            State::Failed(_) => true,
            _ => false,
        }
    }
}

impl Event {
    /// The failure that this answer stands for where another one was awaited.
    pub fn failure(self) -> (error: WatchError)
        ensures
            error@ == failure_of(self@),
    {
        match self {
            Event::Failed(cause) => WatchError::CollaboratorFailure(cause),
            _ => WatchError::UnexpectedEvent,
        }
    }
}

/// The networks under watch and the access to the release host.
#[derive(Debug)]
pub struct Watcher {
    pub github: GitHub,
    pub networks: &'static [&'static str],
}

/// The names of the networks, in order.
pub open spec fn network_names(networks: Seq<&'static str>) -> Seq<Seq<char>> {
    networks.map_values(|n: &'static str| n@)
}

impl Watcher {
    /// A watcher over `networks`, in that order, that signs with `github_token`.
    pub fn new(github_token: &str, networks: &'static [&'static str]) -> (watcher: Watcher)
        ensures
            watcher.github.token@ == github_token@,
            watcher.networks@ == networks@,
    {
        Watcher { github: GitHub::new(github_token), networks }
    }

    /// Whether `network` follows the prerelease channel.
    pub fn is_prerelease(network: &str) -> (r: bool)
        ensures
            r == follows_prereleases(network@),
    {
        starts_with(network, "koi")
    }

    /// The address of a node of `network`.
    pub fn endpoint_of(network: &str) -> (uri: String)
        ensures
            uri@ == rpc_endpoint(network@),
    {
        if same_text(network, "darwinia") {
            String::from_str("https://rpc.darwinia.network")
        } else {
            String::from_str("https://").concat(network).concat("-rpc.darwinia.network")
        }
    }

    /// What to ask first for any network.
    pub fn begin() -> (action: Action)
        ensures
            action@ == first_action(),
    {
        Action::ListReleases(GitHub::releases_of("darwinia"))
    }

    /// Takes the reconciliation of `network` one step further: from `state`, on the answer
    /// `event`, to the next state and the next thing to ask.
    pub fn check_and_release(&self, network: &str, state: State, event: Event) -> (next: (
        State,
        Action,
    ))
        ensures
            (next.0@, next.1@) == step(network@, state@, event@),
    {
        let prerelease = Watcher::is_prerelease(network);
        match state {
            State::Start => match event {
                Event::Releases(list) => {
                    match latest_darwinia_release_of(&list, None, prerelease) {
                        Ok(source) => (
                            State::SourceFetched { source },
                            Action::ListReleases(GitHub::releases_of("darwinia-release")),
                        ),
                        Err(error) => (State::Failed(error), Action::Stop),
                    }
                },
                other => (State::Failed(other.failure()), Action::Stop),
            },
            State::SourceFetched { source } => match event {
                Event::Releases(list) => {
                    match latest_darwinia_release_of(&list, Some(network), prerelease) {
                        Ok(packaged) => {
                            if source.tag == packaged.tag {
                                (State::UpToDate { source, packaged }, Action::Stop)
                            } else {
                                (
                                    State::PackagedFetched { source, packaged },
                                    Action::ReadRuntimeVersion(Watcher::endpoint_of(network)),
                                )
                            }
                        },
                        Err(error) => (State::Failed(error), Action::Stop),
                    }
                },
                other => (State::Failed(other.failure()), Action::Stop),
            },
            State::PackagedFetched { source, packaged } => match event {
                Event::RuntimeVersion(on_chain) => {
                    if on_chain == source.spec {
                        let dispatch = self.github.release(network, source.tag.as_str());
                        (
                            State::OnChainFetched { source, packaged, on_chain },
                            Action::Release(dispatch),
                        )
                    } else {
                        (State::Behind { source, packaged, on_chain }, Action::Stop)
                    }
                },
                other => (State::Failed(other.failure()), Action::Stop),
            },
            State::OnChainFetched { source, packaged, on_chain } => match event {
                Event::Released => (
                    State::Triggered { source, packaged, on_chain, trigger: Ok(()) },
                    Action::Stop,
                ),
                Event::Failed(cause) => (
                    State::Triggered {
                        source,
                        packaged,
                        on_chain,
                        trigger: Err(TriggerError { cause }),
                    },
                    Action::Stop,
                ),
                _ => (State::Failed(WatchError::UnexpectedEvent), Action::Stop),
            },
            done => (done, Action::Stop),
        }
    }
}

/// A pass over all the networks: which one is being reconciled, how far it has come, and how
/// the ones before it ended.
#[derive(Debug)]
pub struct Run {
    pub at: usize,
    pub state: State,
    pub outcomes: Vec<State>,
}

/// What a run is in contracts.
pub struct RunView {
    pub at: nat,
    pub state: StateView,
    pub outcomes: Seq<StateView>,
}

/// The views of a list of states, in the same order.
pub open spec fn state_views(states: Seq<State>) -> Seq<StateView> {
    states.map_values(|s: State| s@)
}

impl View for Run {
    type V = RunView;

    open spec fn view(&self) -> RunView {
        RunView { at: self.at as nat, state: self.state@, outcomes: state_views(self.outcomes@) }
    }
}

impl RunView {
    /// A run is sound when it has one outcome for each network that it has left behind, each of
    /// them final, and the network at hand has not ended yet.
    pub open spec fn wf(self) -> bool {
        &&& self.outcomes.len() == self.at
        &&& !self.state.is_final()
        &&& forall|i: int| 0 <= i < self.outcomes.len() ==> (#[trigger] self.outcomes[i]).is_final()
    }

    /// Every network has its outcome.
    pub open spec fn is_over(self, networks: Seq<Seq<char>>) -> bool {
        self.at >= networks.len()
    }
}

/// What to ask when the run comes to the network at `at`: its first question, or nothing where
/// no network is left.
pub open spec fn opening(networks: Seq<Seq<char>>, at: nat) -> ActionView {
    if at < networks.len() {
        first_action()
    } else {
        ActionView::Stop
    }
}

/// The run before any answer.
pub open spec fn fresh_run() -> RunView {
    RunView { at: 0, state: StateView::Start, outcomes: Seq::<StateView>::empty() }
}

/// One step of a run over `networks`. The answer goes to the network at hand. Where that ends
/// its reconciliation, in whatever way, the end is written down and the next network starts
/// afresh; the outcomes of earlier networks are never looked at.
pub open spec fn run_step(networks: Seq<Seq<char>>, run: RunView, event: EventView) -> (
    RunView,
    ActionView,
) {
    if run.at >= networks.len() {
        (run, ActionView::Stop)
    } else {
        let (state, action) = step(networks[run.at as int], run.state, event);
        if state.is_final() {
            (
                RunView {
                    at: run.at + 1,
                    state: StateView::Start,
                    outcomes: run.outcomes.push(state),
                },
                opening(networks, run.at + 1),
            )
        } else {
            (RunView { at: run.at, state, outcomes: run.outcomes }, action)
        }
    }
}

impl Watcher {
    /// What to ask when a run comes to the network at `at`.
    fn open_network(&self, at: usize) -> (action: Action)
        ensures
            action@ == opening(network_names(self.networks@), at as nat),
    {
        if at < self.networks.len() {
            Watcher::begin()
        } else {
            Action::Stop
        }
    }

    /// Starts a pass over the networks: the run before any answer, and the first thing to ask.
    pub fn start(&self) -> (first: (Run, Action))
        ensures
            first.0@ == fresh_run(),
            first.1@ == opening(network_names(self.networks@), 0),
    {
        let run = Run { at: 0, state: State::Start, outcomes: Vec::new() };
        assert(state_views(run.outcomes@) =~= Seq::<StateView>::empty());
        (run, self.open_network(0))
    }

    /// Takes the run one step further on the answer `event`: reconciles the network at hand,
    /// and moves on to the next one when that has ended. Once every network has its outcome the
    /// run stays as it is and there is nothing left to ask.
    pub fn process(&self, run: Run, event: Event) -> (next: (Run, Action))
        ensures
            (next.0@, next.1@) == run_step(network_names(self.networks@), run@, event@),
    {
        if run.at >= self.networks.len() {
            return (run, Action::Stop);
        }
        let Run { at, state, outcomes } = run;
        let network: &str = self.networks[at];
        assert(network_names(self.networks@)[at as int] == network@);
        let (state, action) = self.check_and_release(network, state, event);
        if state.is_final() {
            let mut outcomes = outcomes;
            let ghost before = state_views(outcomes@);
            let ghost ended = state@;
            outcomes.push(state);
            assert(state_views(outcomes@) =~= before.push(ended));
            (Run { at: at + 1, state: State::Start, outcomes }, self.open_network(at + 1))
        } else {
            (Run { at, state, outcomes }, action)
        }
    }
}

} // verus!

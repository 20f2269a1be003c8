//! What holds of the reconciliation in every state and on every answer.

use vstd::prelude::*;
use crate::engine::{
    first_action, fresh_run, opening, run_step, step, ActionView, EventView, RunView, StateView,
};
use crate::github::dispatch_of;
use crate::release::{no_release, select, ReleaseView, VersionView};
use crate::engine::{follows_prereleases, rpc_endpoint};
use crate::error::{WatchError, WatchErrorView};

verus! {

/// How many answers a state has behind it; every final state counts as four.
pub open spec fn rank(state: StateView) -> nat {
    match state {
        StateView::Start => 0,
        StateView::SourceFetched { .. } => 1,
        StateView::PackagedFetched { .. } => 2,
        StateView::OnChainFetched { .. } => 3,
        _ => 4,
    }
}

/// Every answer takes a reconciliation that has not ended strictly further, so it ends after
/// four answers at most; one that has ended stays where it is and asks for nothing.
pub proof fn lemma_step_advances(network: Seq<char>, state: StateView, event: EventView)
    ensures
        !state.is_final() ==> rank(step(network, state, event).0) > rank(state),
        state.is_final() ==> step(network, state, event) == (state, ActionView::Stop),
{
}

/// A reconciliation that ends asks for nothing more: no question is left unanswered.
pub proof fn lemma_end_asks_nothing(network: Seq<char>, state: StateView, event: EventView)
    ensures
        step(network, state, event).0.is_final() ==> step(network, state, event).1
            == ActionView::Stop,
{
}

/// Where the packaged repository holds the very tag of the source, the network is up to date
/// at once: the chain is not asked and nothing is released.
pub proof fn lemma_same_tag_is_up_to_date(
    network: Seq<char>,
    source: VersionView,
    packaged: VersionView,
    list: Seq<ReleaseView>,
)
    requires
        select(list, Some(network), follows_prereleases(network)) == Ok::<VersionView, WatchError>(
            packaged,
        ),
        source.tag == packaged.tag,
    ensures
        step(network, StateView::SourceFetched { source }, EventView::Releases(list)) == (
            StateView::UpToDate { source, packaged },
            ActionView::Stop,
        ),
{
}

/// Tags are compared, not versions: two different tags that decode to the same number still
/// send the engine to the chain.
pub proof fn lemma_different_tags_ask_the_chain(
    network: Seq<char>,
    source: VersionView,
    packaged: VersionView,
    list: Seq<ReleaseView>,
)
    requires
        select(list, Some(network), follows_prereleases(network)) == Ok::<VersionView, WatchError>(
            packaged,
        ),
        source.tag != packaged.tag,
    ensures
        step(network, StateView::SourceFetched { source }, EventView::Releases(list)) == (
            StateView::PackagedFetched { source, packaged },
            ActionView::ReadRuntimeVersion(rpc_endpoint(network)),
        ),
{
}

/// The chain is asked in one situation only: the packaged releases have just arrived and their
/// latest tag is not the source tag.
pub proof fn lemma_chain_asked_only_on_different_tags(
    network: Seq<char>,
    state: StateView,
    event: EventView,
)
    requires
        step(network, state, event).1 is ReadRuntimeVersion,
    ensures
        state is SourceFetched,
        event is Releases,
        step(network, state, event).0 matches StateView::PackagedFetched { source, packaged }
            && source == state->SourceFetched_source && source.tag != packaged.tag,
{
}

/// A release is asked for in one situation only: the chain has just reported exactly the source
/// version. The dispatch then names the network and the source tag.
pub proof fn lemma_release_only_on_matching_chain(
    network: Seq<char>,
    state: StateView,
    event: EventView,
)
    requires
        step(network, state, event).1 is Release,
    ensures
        state matches StateView::PackagedFetched { source, packaged } && event
            == EventView::RuntimeVersion(source.spec) && step(network, state, event) == (
            StateView::OnChainFetched { source, packaged, on_chain: source.spec },
            ActionView::Release(dispatch_of(network, source.tag)),
        ),
{
}

/// A chain that reports any other version than the source version leaves the network behind,
/// and nothing is released.
pub proof fn lemma_other_version_is_behind(
    network: Seq<char>,
    source: VersionView,
    packaged: VersionView,
    on_chain: u32,
)
    requires
        on_chain != source.spec,
    ensures
        step(
            network,
            StateView::PackagedFetched { source, packaged },
            EventView::RuntimeVersion(on_chain),
        ) == (StateView::Behind { source, packaged, on_chain }, ActionView::Stop),
{
}

/// A channel without a release is no failure: with a source tag at hand and nothing packaged
/// yet, the engine goes on to ask the chain.
pub proof fn lemma_nothing_packaged_asks_the_chain(
    network: Seq<char>,
    source: VersionView,
    list: Seq<ReleaseView>,
)
    requires
        select(list, Some(network), follows_prereleases(network)) == Ok::<VersionView, WatchError>(
            no_release(),
        ),
        source.tag.len() > 0,
    ensures
        step(network, StateView::SourceFetched { source }, EventView::Releases(list)) == (
            StateView::PackagedFetched { source, packaged: no_release() },
            ActionView::ReadRuntimeVersion(rpc_endpoint(network)),
        ),
{
}

/// A failed call ends a network that was waiting for releases or for the chain, and the
/// failure keeps the cause as it was handed in.
pub proof fn lemma_failed_call_keeps_its_cause(
    network: Seq<char>,
    state: StateView,
    cause: Seq<char>,
)
    requires
        !state.is_final(),
        !(state is OnChainFetched),
    ensures
        step(network, state, EventView::Failed(cause)) == (
            StateView::Failed(WatchErrorView::CollaboratorFailure(cause)),
            ActionView::Stop,
        ),
{
}

/// A dispatch that fails is still an outcome of its own, told apart from the decision not to
/// release: the network counts as triggered, with the cause of the failure.
pub proof fn lemma_failed_dispatch_is_an_outcome(
    network: Seq<char>,
    source: VersionView,
    packaged: VersionView,
    on_chain: u32,
    cause: Seq<char>,
)
    ensures
        step(
            network,
            StateView::OnChainFetched { source, packaged, on_chain },
            EventView::Failed(cause),
        ) == (
            StateView::Triggered { source, packaged, on_chain, trigger: Err(cause) },
            ActionView::Stop,
        ),
{
}

/// The run before any answer is sound.
pub proof fn lemma_fresh_run_is_sound()
    ensures
        fresh_run().wf(),
{
}

/// A step keeps a sound run sound, and never takes an outcome back.
pub proof fn lemma_run_step_keeps_sound(networks: Seq<Seq<char>>, run: RunView, event: EventView)
    requires
        run.wf(),
    ensures
        run_step(networks, run, event).0.wf(),
        run_step(networks, run, event).0.at >= run.at,
        run.outcomes.is_prefix_of(run_step(networks, run, event).0.outcomes),
{
    if run.at < networks.len() {
        lemma_step_advances(networks[run.at as int], run.state, event);
    }
}

/// Once every network has its outcome, the run stays as it is and asks for nothing.
pub proof fn lemma_finished_run_rests(networks: Seq<Seq<char>>, run: RunView, event: EventView)
    requires
        run.is_over(networks),
    ensures
        run_step(networks, run, event) == (run, ActionView::Stop),
{
}

/// One network's end, a failure included, does not hold up the next: the run writes the end
/// down and opens the next network from its start.
pub proof fn lemma_end_moves_on(networks: Seq<Seq<char>>, run: RunView, event: EventView)
    requires
        run.at < networks.len(),
        step(networks[run.at as int], run.state, event).0.is_final(),
    ensures
        run_step(networks, run, event).0 == (RunView {
            at: run.at + 1,
            state: StateView::Start,
            outcomes: run.outcomes.push(step(networks[run.at as int], run.state, event).0),
        }),
        run_step(networks, run, event).1 == opening(networks, run.at + 1),
        run.at + 1 < networks.len() ==> run_step(networks, run, event).1 == first_action(),
{
}

/// How earlier networks ended has no say in what happens to the network at hand: two runs that
/// stand at the same network in the same state take the same step on the same answer, and
/// write down the same outcome if any.
pub proof fn lemma_networks_are_isolated(
    networks: Seq<Seq<char>>,
    one: RunView,
    other: RunView,
    event: EventView,
)
    requires
        one.at == other.at,
        one.state == other.state,
    ensures
        ({
            let (a, asked_a) = run_step(networks, one, event);
            let (b, asked_b) = run_step(networks, other, event);
            &&& a.at == b.at
            &&& a.state == b.state
            &&& asked_a == asked_b
            &&& a.outcomes.skip(one.outcomes.len() as int) == b.outcomes.skip(
                other.outcomes.len() as int,
            )
        }),
{
    let (a, asked_a) = run_step(networks, one, event);
    let (b, asked_b) = run_step(networks, other, event);
    assert(a.outcomes.skip(one.outcomes.len() as int) =~= b.outcomes.skip(
        other.outcomes.len() as int,
    ));
}

} // verus!

//! What is sent to the release host: where the releases of a repository are listed, how a
//! request is signed, and the workflow dispatch that deploys a release.

use vstd::prelude::*;
use vstd::string::StringExecFns;

verus! {

/// The repository whose releases are the source of truth.
pub open spec fn source_repository() -> Seq<char> {
    "darwinia"@
}

/// The repository that holds the packaged releases, one line of them per network.
pub open spec fn packaged_repository() -> Seq<char> {
    "darwinia-release"@
}

/// The address that lists the releases of `repository`.
pub open spec fn releases_api(repository: Seq<char>) -> Seq<char> {
    "https://api.github.com/repos/darwinia-network/"@ + repository + "/releases"@
}

/// The address that takes a workflow dispatch.
pub open spec fn dispatch_api() -> Seq<char> {
    "https://api.github.com/repos/darwinia-network/darwinia-release/actions/workflows/node.yml/dispatches"@
}

/// The git reference that a dispatched workflow runs on.
pub open spec fn dispatch_ref() -> Seq<char> {
    "main"@
}

/// The value of the authorization header for `token`.
pub open spec fn bearer(token: Seq<char>) -> Seq<char> {
    "Bearer "@ + token
}

/// The access to the release host: the token that signs every request.
#[derive(Debug)]
pub struct GitHub {
    pub token: String,
}

/// A request to run the release workflow for one network and one tag.
#[derive(Debug)]
pub struct Dispatch {
    pub api: String,
    pub git_ref: String,
    pub network: String,
    pub tag: String,
}

/// What a dispatch is in contracts.
pub struct DispatchView {
    pub api: Seq<char>,
    pub git_ref: Seq<char>,
    pub network: Seq<char>,
    pub tag: Seq<char>,
}

impl View for Dispatch {
    type V = DispatchView;

    open spec fn view(&self) -> DispatchView {
        DispatchView {
            api: self.api@,
            git_ref: self.git_ref@,
            network: self.network@,
            tag: self.tag@,
        }
    }
}

/// The dispatch that releases `tag` to `network`.
pub open spec fn dispatch_of(network: Seq<char>, tag: Seq<char>) -> DispatchView {
    DispatchView { api: dispatch_api(), git_ref: dispatch_ref(), network, tag }
}

impl GitHub {
    /// An access that signs with `token`.
    pub fn new(token: &str) -> (github: GitHub)
        ensures
            github.token@ == token@,
    {
        GitHub { token: String::from_str(token) }
    }

    /// The value of the authorization header of every request.
    pub fn authorization(&self) -> (header: String)
        ensures
            header@ == bearer(self.token@),
    {
        String::from_str("Bearer ").concat(self.token.as_str())
    }

    /// The media type that a dispatch asks for.
    pub fn accept() -> (media: &'static str)
        ensures
            media@ == "application/vnd.github+json"@,
    {
        "application/vnd.github+json"
    }

    /// The address that lists the releases of `repository`, newest first.
    pub fn releases_of(repository: &str) -> (api: String)
        ensures
            api@ == releases_api(repository@),
    {
        String::from_str("https://api.github.com/repos/darwinia-network/").concat(
            repository,
        ).concat("/releases")
    }

    /// The address that takes a workflow dispatch.
    pub fn dispatches() -> (api: &'static str)
        ensures
            api@ == dispatch_api(),
    {
        "https://api.github.com/repos/darwinia-network/darwinia-release/actions/workflows/node.yml/dispatches"
    }

    /// The dispatch that releases `tag` to `network`. Sending it is left to the caller, who sends
    /// it once.
    pub fn release(&self, network: &str, tag: &str) -> (dispatch: Dispatch)
        ensures
            dispatch@ == dispatch_of(network@, tag@),
    {
        Dispatch {
            api: String::from_str(GitHub::dispatches()),
            git_ref: String::from_str("main"),
            network: String::from_str(network),
            tag: String::from_str(tag),
        }
    }
}

} // verus!

//! Releases as the hosting service lists them, and the choice of the latest one of a channel.

use vstd::prelude::*;
use vstd::utf8::encode_utf8;
use crate::codec::{decode_tag, kind_of, tag2spec_version};
use crate::text::same_text;
use crate::WatchError;

verus! {

/// One published release, as the hosting service describes it.
#[derive(Debug)]
pub struct GitHubRelease {
    pub prerelease: bool,
    pub tag_name: String,
    pub target_commitish: String,
}

/// What a release is in contracts: its flag and the characters of its two texts.
pub struct ReleaseView {
    pub prerelease: bool,
    pub tag_name: Seq<char>,
    pub target_commitish: Seq<char>,
}

impl View for GitHubRelease {
    type V = ReleaseView;

    open spec fn view(&self) -> ReleaseView {
        ReleaseView {
            prerelease: self.prerelease,
            tag_name: self.tag_name@,
            target_commitish: self.target_commitish@,
        }
    }
}

/// The latest release of a channel: its tag and the runtime version that the tag stands for.
#[derive(Debug)]
pub struct Version {
    pub spec: u32,
    pub tag: String,
}

/// What a version is in contracts.
pub struct VersionView {
    pub spec: u32,
    pub tag: Seq<char>,
}

impl View for Version {
    type V = VersionView;

    open spec fn view(&self) -> VersionView {
        VersionView { spec: self.spec, tag: self.tag@ }
    }
}

/// The views of a list of releases, in the same order.
pub open spec fn release_views(releases: Seq<GitHubRelease>) -> Seq<ReleaseView> {
    releases.map_values(|r: GitHubRelease| r@)
}

/// The characters of an optional branch name.
pub open spec fn branch_view(branch: Option<&str>) -> Option<Seq<char>> {
    match branch {
        Some(b) => Some(b@),
        None => None,
    }
}

/// The answer where a channel has no release yet: an empty tag and version zero.
pub open spec fn no_release() -> VersionView {
    VersionView { spec: 0, tag: Seq::<char>::empty() }
}

/// A release belongs to a channel when its prerelease flag is the channel's and, where the
/// channel names a branch, the release was cut from that branch.
pub open spec fn eligible(r: ReleaseView, branch: Option<Seq<char>>, prerelease: bool) -> bool {
    &&& r.prerelease == prerelease
    &&& branch matches Some(b) ==> r.target_commitish == b
}

/// `i` is the first release of the channel in the list, or the length of the list where the
/// channel has none.
pub open spec fn is_first_eligible(
    releases: Seq<ReleaseView>,
    branch: Option<Seq<char>>,
    prerelease: bool,
    i: int,
) -> bool {
    &&& 0 <= i <= releases.len()
    &&& forall|j: int| 0 <= j < i ==> !eligible(#[trigger] releases[j], branch, prerelease)
    &&& i < releases.len() ==> eligible(releases[i], branch, prerelease)
}

/// The index of the first release of the channel, or the length of the list.
pub open spec fn first_eligible(
    releases: Seq<ReleaseView>,
    branch: Option<Seq<char>>,
    prerelease: bool,
) -> int
    decreases releases.len(),
{
    if releases.len() == 0 || eligible(releases[0], branch, prerelease) {
        0
    } else {
        1 + first_eligible(releases.skip(1), branch, prerelease)
    }
}

/// `first_eligible` names the first release of the channel.
pub proof fn lemma_first_eligible(
    releases: Seq<ReleaseView>,
    branch: Option<Seq<char>>,
    prerelease: bool,
)
    ensures
        is_first_eligible(releases, branch, prerelease, first_eligible(releases, branch, prerelease)),
    decreases releases.len(),
{
    if releases.len() == 0 || eligible(releases[0], branch, prerelease) {
    } else {
        let rest = releases.skip(1);
        lemma_first_eligible(rest, branch, prerelease);
        let i = first_eligible(releases, branch, prerelease);
        assert forall|j: int| 0 <= j < i implies !eligible(
            #[trigger] releases[j],
            branch,
            prerelease,
        ) by {
            if j > 0 {
                assert(releases[j] == rest[j - 1]);
            }
        }
        if i < releases.len() {
            assert(releases[i] == rest[i - 1]);
        }
    }
}

/// Only one index is the first release of the channel.
pub proof fn lemma_first_eligible_unique(
    releases: Seq<ReleaseView>,
    branch: Option<Seq<char>>,
    prerelease: bool,
    i: int,
)
    requires
        is_first_eligible(releases, branch, prerelease, i),
    ensures
        first_eligible(releases, branch, prerelease) == i,
{
    lemma_first_eligible(releases, branch, prerelease);
    let k = first_eligible(releases, branch, prerelease);
    if k < i {
        assert(!eligible(releases[k], branch, prerelease));
    } else if i < k {
        assert(!eligible(releases[i], branch, prerelease));
    }
}

/// The version that a release named `tag` stands for: the whole name is the tag, and a name
/// that does not decode under the syntax of the channel is malformed.
pub open spec fn version_of_tag(tag: Seq<char>, prerelease: bool) -> Result<
    VersionView,
    WatchError,
> {
    match decode_tag(encode_utf8(tag), kind_of(prerelease)) {
        Ok(spec) => Ok(VersionView { spec, tag }),
        Err(e) => Err(e),
    }
}

/// The latest version of a channel: that of the first release in the list that belongs to the
/// channel, under its own tag, and the empty version where none does. The list is taken in the
/// order given, newest first, and nothing after the first release of the channel is looked at; a
/// first release whose tag is malformed fails the whole selection.
pub open spec fn select(
    releases: Seq<ReleaseView>,
    branch: Option<Seq<char>>,
    prerelease: bool,
) -> Result<VersionView, WatchError> {
    let i = first_eligible(releases, branch, prerelease);
    if i == releases.len() {
        Ok(no_release())
    } else {
        version_of_tag(releases[i].tag_name, prerelease)
    }
}

/// `r` stands for the outcome `expected`.
pub open spec fn is_version(
    r: Result<Version, WatchError>,
    expected: Result<VersionView, WatchError>,
) -> bool {
    match r {
        Ok(v) => expected == Ok::<VersionView, WatchError>(v@),
        Err(e) => expected == Err::<VersionView, WatchError>(e),
    }
}

impl Version {
    /// The answer where a channel has no release yet.
    pub fn none() -> (v: Version)
        ensures
            v@ == no_release(),
    {
        Version { spec: 0, tag: String::new() }
    }

    /// Whether this is the answer of a channel without a release.
    pub fn is_none(&self) -> (r: bool)
        ensures
            r == (self@ == no_release()),
    {
        let empty = self.tag.as_str().unicode_len() == 0;
        assert(empty ==> self.tag@ =~= Seq::<char>::empty());
        self.spec == 0 && empty
    }

    /// The version that a release named `tag` stands for.
    pub fn from_tag(tag: String, prerelease: bool) -> (r: Result<Version, WatchError>)
        ensures
            is_version(r, version_of_tag(tag@, prerelease)),
    {
        match tag2spec_version(tag.as_str(), prerelease) {
            Ok(spec) => Ok(Version { spec, tag }),
            Err(e) => Err(e),
        }
    }
}

impl GitHubRelease {
    /// Whether this release belongs to the channel of `branch` and `prerelease`.
    pub fn is_eligible(&self, branch: Option<&str>, prerelease: bool) -> (r: bool)
        ensures
            r == eligible(self@, branch_view(branch), prerelease),
    {
        if self.prerelease != prerelease {
            return false;
        }
        match branch {
            None => true,
            Some(b) => same_text(self.target_commitish.as_str(), b),
        }
    }
}

/// Where the first release of the channel stands in `releases`; their number where there is
/// none.
pub fn first_of_channel(releases: &Vec<GitHubRelease>, branch: Option<&str>, prerelease: bool) -> (at:
    usize)
    ensures
        at <= releases@.len(),
        at == first_eligible(release_views(releases@), branch_view(branch), prerelease),
{
    let ghost views = release_views(releases@);
    let mut i: usize = 0;
    while i < releases.len() && !releases[i].is_eligible(branch, prerelease)
        invariant
            i <= releases@.len(),
            views == release_views(releases@),
            forall|j: int|
                0 <= j < i ==> !eligible(#[trigger] views[j], branch_view(branch), prerelease),
        decreases releases@.len() - i,
    {
        assert(views[i as int] == releases@[i as int]@);
        i = i + 1;
    }
    proof {
        if i < releases@.len() {
            assert(views[i as int] == releases@[i as int]@);
        }
        lemma_first_eligible_unique(views, branch_view(branch), prerelease, i as int);
    }
    i
}

/// The latest version among `releases` for the channel of `branch` and `prerelease`: that of
/// the first release that belongs to the channel, in the order of the list.
pub fn latest_darwinia_release_of(
    releases: &Vec<GitHubRelease>,
    branch: Option<&str>,
    prerelease: bool,
) -> (r: Result<Version, WatchError>)
    ensures
        is_version(r, select(release_views(releases@), branch_view(branch), prerelease)),
{
    let at: usize = first_of_channel(releases, branch, prerelease);
    if at == releases.len() {
        Ok(Version::none())
    } else {
        assert(release_views(releases@)[at as int] == releases@[at as int]@);
        Version::from_tag(releases[at].tag_name.clone(), prerelease)
    }
}

/// Selection is a function of the list and the channel: two answers for the same releases and
/// the same channel are the same version, or the same failure.
pub proof fn lemma_select_is_deterministic(
    first_list: Seq<GitHubRelease>,
    second_list: Seq<GitHubRelease>,
    first_branch: Option<&str>,
    second_branch: Option<&str>,
    prerelease: bool,
    first: Result<Version, WatchError>,
    second: Result<Version, WatchError>,
)
    requires
        release_views(first_list) == release_views(second_list),
        branch_view(first_branch) == branch_view(second_branch),
        is_version(first, select(release_views(first_list), branch_view(first_branch), prerelease)),
        is_version(
            second,
            select(release_views(second_list), branch_view(second_branch), prerelease),
        ),
    ensures
        match (first, second) {
            (Ok(a), Ok(b)) => a@ == b@,
            (Err(a), Err(b)) => a == b,
            _ => false,
        },
{
}

/// A release of the other kind is never chosen, wherever it stands in the list: what is chosen
/// belongs to the channel, and everything before it does not.
pub proof fn lemma_first_eligible_belongs(
    releases: Seq<ReleaseView>,
    branch: Option<Seq<char>>,
    prerelease: bool,
)
    ensures
        ({
            let i = first_eligible(releases, branch, prerelease);
            &&& 0 <= i <= releases.len()
            &&& i < releases.len() ==> releases[i].prerelease == prerelease
            &&& i < releases.len() && branch is Some ==> releases[i].target_commitish == branch->0
            &&& forall|j: int|
                0 <= j < i ==> !eligible(#[trigger] releases[j], branch, prerelease)
        }),
{
    lemma_first_eligible(releases, branch, prerelease);
}

/// The selection is the first release of the channel under its own tag: the tag of the answer
/// is the whole name of that release, and the version is what that name decodes to.
pub proof fn lemma_select_is_first_of_channel(
    releases: Seq<ReleaseView>,
    branch: Option<Seq<char>>,
    prerelease: bool,
    i: int,
)
    requires
        is_first_eligible(releases, branch, prerelease, i),
        i < releases.len(),
    ensures
        select(releases, branch, prerelease) == version_of_tag(releases[i].tag_name, prerelease),
        select(releases, branch, prerelease) matches Ok(v) ==> v.tag == releases[i].tag_name
            && decode_tag(encode_utf8(releases[i].tag_name), kind_of(prerelease)) == Ok::<
            u32,
            WatchError,
        >(v.spec),
        select(releases, branch, prerelease) matches Err(e) ==> e == WatchError::MalformedTag,
{
    lemma_first_eligible_unique(releases, branch, prerelease, i);
}

/// Where no release belongs to the channel, the selection is the empty version, not a failure.
pub proof fn lemma_select_of_no_release(
    releases: Seq<ReleaseView>,
    branch: Option<Seq<char>>,
    prerelease: bool,
)
    requires
        forall|j: int|
            0 <= j < releases.len() ==> !eligible(#[trigger] releases[j], branch, prerelease),
    ensures
        select(releases, branch, prerelease) == Ok::<VersionView, WatchError>(no_release()),
{
    lemma_first_eligible_unique(releases, branch, prerelease, releases.len() as int);
}

/// What stands after the first release of the channel has no say: two lists that agree up to
/// and including that release give the same selection.
pub proof fn lemma_later_releases_do_not_matter(
    releases: Seq<ReleaseView>,
    other: Seq<ReleaseView>,
    branch: Option<Seq<char>>,
    prerelease: bool,
    i: int,
)
    requires
        is_first_eligible(releases, branch, prerelease, i),
        i < releases.len(),
        i < other.len(),
        other.take(i + 1) == releases.take(i + 1),
    ensures
        select(other, branch, prerelease) == select(releases, branch, prerelease),
{
    assert forall|j: int| 0 <= j <= i implies other[j] == releases[j] by {
        assert(other.take(i + 1)[j] == other[j]);
        assert(releases.take(i + 1)[j] == releases[j]);
    }
    lemma_first_eligible_unique(releases, branch, prerelease, i);
    lemma_first_eligible_unique(other, branch, prerelease, i);
}

} // verus!

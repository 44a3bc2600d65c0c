//! Release-index data shapes and their mathematical models.

use vstd::prelude::*;

verus! {

/// Template of the upstream release-index URL, parametrized by stream name.
pub const RELEASES_JSON: &'static str = "https://builds.coreos.fedoraproject.org/prod/streams/${stream}/releases.json";

/// One architecture-specific build artifact within a release.
#[derive(Debug, PartialEq, Eq)]
pub struct Commit {
    pub architecture: String,
    pub checksum: String,
}

/// One published version with its per-architecture build artifacts.
#[derive(Debug, PartialEq, Eq)]
pub struct Release {
    pub version: String,
    pub commits: Vec<Commit>,
}

/// The shape of an upstream release-index document: `{releases: [...]}`.
#[derive(Debug, PartialEq, Eq)]
pub struct ReleasesJSON {
    pub releases: Vec<Release>,
}

/// Mathematical model of a `Commit`.
pub ghost struct CommitView {
    pub architecture: Seq<char>,
    pub checksum: Seq<char>,
}

/// Mathematical model of a `Release`.
pub ghost struct ReleaseView {
    pub version: Seq<char>,
    pub commits: Seq<CommitView>,
}

/// Mathematical model of a `ReleasesJSON`.
pub ghost struct ReleasesJSONView {
    pub releases: Seq<ReleaseView>,
}

impl View for Commit {
    type V = CommitView;

    open spec fn view(&self) -> CommitView {
        CommitView { architecture: self.architecture@, checksum: self.checksum@ }
    }
}

impl View for Release {
    type V = ReleaseView;

    open spec fn view(&self) -> ReleaseView {
        ReleaseView {
            version: self.version@,
            commits: self.commits@.map_values(|c: Commit| c@),
        }
    }
}

impl View for ReleasesJSON {
    type V = ReleasesJSONView;

    open spec fn view(&self) -> ReleasesJSONView {
        ReleasesJSONView { releases: self.releases@.map_values(|r: Release| r@) }
    }
}

impl Clone for Commit {
    fn clone(&self) -> (r: Self)
        ensures
            r == *self,
    {
        Commit { architecture: self.architecture.clone(), checksum: self.checksum.clone() }
    }
}

impl Clone for Release {
    fn clone(&self) -> (r: Self)
        ensures
            r@ == self@,
    {
        let commits = self.commits.clone();
        proof {
            assert(commits@ =~= self.commits@);
        }
        Release { version: self.version.clone(), commits }
    }
}

/// The checksum of the last commit in sequence order whose architecture
/// equals `basearch`, if any: later matches override earlier ones.
pub open spec fn last_match(commits: Seq<CommitView>, basearch: Seq<char>) -> Option<Seq<char>>
    decreases commits.len(),
{
    if commits.len() == 0 {
        None
    } else if commits.last().architecture == basearch {
        Some(commits.last().checksum)
    } else {
        last_match(commits.drop_last(), basearch)
    }
}

/// The last-match scan succeeds exactly when some commit of the sequence
/// carries the requested architecture.
pub proof fn lemma_last_match_exists(commits: Seq<CommitView>, basearch: Seq<char>)
    ensures
        last_match(commits, basearch) is Some <==> exists|i: int|
            #![trigger commits[i]]
            0 <= i < commits.len() && commits[i].architecture == basearch,
    decreases commits.len(),
{
    if commits.len() > 0 {
        lemma_last_match_exists(commits.drop_last(), basearch);
        if commits.last().architecture == basearch {
            assert(commits[commits.len() - 1].architecture == basearch);
        } else {
            if exists|i: int|
                #![trigger commits[i]]
                0 <= i < commits.len() && commits[i].architecture == basearch {
                let i = choose|i: int|
                    #![trigger commits[i]]
                    0 <= i < commits.len() && commits[i].architecture == basearch;
                assert(commits.drop_last()[i].architecture == basearch);
            }
            if exists|i: int|
                #![trigger commits.drop_last()[i]]
                0 <= i < commits.drop_last().len() && commits.drop_last()[i].architecture
                    == basearch {
                let i = choose|i: int|
                    #![trigger commits.drop_last()[i]]
                    0 <= i < commits.drop_last().len() && commits.drop_last()[i].architecture
                        == basearch;
                assert(commits[i].architecture == basearch);
            }
        }
    }
}

/// The last-match scan returns the checksum of the last commit in sequence
/// order whose architecture matches: a later matching commit overrides every
/// earlier one.
pub proof fn lemma_last_match_is_last(commits: Seq<CommitView>, basearch: Seq<char>, i: int)
    requires
        0 <= i < commits.len(),
        commits[i].architecture == basearch,
        forall|j: int| i < j < commits.len() ==> commits[j].architecture != basearch,
    ensures
        last_match(commits, basearch) == Some(commits[i].checksum),
    decreases commits.len(),
{
    if i < commits.len() - 1 {
        assert(commits.last().architecture != basearch);
        lemma_last_match_is_last(commits.drop_last(), basearch, i);
    }
}

/// Reduce an upstream release-index document to its newest entry: the last
/// element of the `releases` list, or nothing when the list is empty.
pub fn latest_release(json: ReleasesJSON) -> (r: Option<Release>)
    ensures
        match r {
            Some(rel) => json@.releases.len() > 0 && rel@ == json@.releases.last(),
            None => json@.releases.len() == 0,
        },
{
    let ReleasesJSON { releases } = json;
    let mut rest = releases;
    let last = rest.pop();
    proof {
        if json@.releases.len() > 0 {
            assert(json@.releases.last() == releases@.map_values(|r: Release| r@).last());
        }
    }
    last
}

} // verus!

//! Process-wide, read-only configuration: global defaults, team metadata,
//! and the per-region settings a manifest is resolved against.
use vstd::prelude::*;

use crate::ext::{semver_check, semver_valid};
use crate::strutil::strs_view;

verus! {

/// One team that can own services.
#[derive(Clone, Debug)]
pub struct Team {
    pub name: String,
}

/// Global defaults merged into every manifest that leaves a field unset.
#[derive(Clone, Debug)]
pub struct ManifestDefaults {
    /// Registry prefix prepended to the service name when no image is set.
    pub imagePrefix: String,
    /// Chart used when the manifest names none.
    pub chart: String,
    /// Replica count used when the manifest sets none.
    pub replicaCount: u32,
    /// Uncompressed image size assumed, in mebibytes, when the manifest
    /// declares none; feeds the rollout wait-time estimate.
    pub imageSize: u32,
}

/// How versions declared in a region are checked.
#[derive(Clone, Copy, Debug, PartialEq, Eq, Structural)]
pub enum VersionScheme {
    /// Only full semantic versions are accepted.
    Semver,
    /// A 40-character lower-case hex git object name is accepted too.
    GitShaOrSemver,
}

/// A lower-case hexadecimal digit.
pub open spec fn hex_char(c: char) -> bool {
    ('0' <= c && c <= '9') || ('a' <= c && c <= 'f')
}

/// A 40-character lower-case hex string, as git names objects.
pub open spec fn valid_git_sha(s: Seq<char>) -> bool {
    s.len() == 40 && forall|i: int| 0 <= i < s.len() ==> hex_char(#[trigger] s[i])
}

/// Decides `valid_git_sha` character by character.
pub fn git_sha_ok(s: &String) -> (r: bool)
    ensures
        r == valid_git_sha(s@),
{
    let n = s.as_str().unicode_len();
    if n != 40 {
        return false;
    }
    let mut i: usize = 0;
    while i < n
        invariant
            n == s@.len(),
            i <= n,
            forall|j: int| 0 <= j < i ==> hex_char(#[trigger] s@[j]),
        decreases n - i,
    {
        let c = s.as_str().get_char(i);
        if !(('0' <= c && c <= '9') || ('a' <= c && c <= 'f')) {
            return false;
        }
        i += 1;
    }
    true
}

impl VersionScheme {
    /// What this scheme accepts.
    pub open spec fn accepts(self, v: Seq<char>) -> bool {
        match self {
            VersionScheme::Semver => semver_valid(v),
            VersionScheme::GitShaOrSemver => semver_valid(v) || valid_git_sha(v),
        }
    }

    /// Decides `accepts` for a declared version.
    pub fn verify(&self, v: &String) -> (r: bool)
        ensures
            r == self.accepts(v@),
    {
        match self {
            VersionScheme::Semver => semver_check(v),
            VersionScheme::GitShaOrSemver => semver_check(v) || git_sha_ok(v),
        }
    }
}

/// Where a region keeps its secrets.
#[derive(Clone, Debug)]
pub struct VaultConfig {
    /// Address of the secret store.
    pub url: String,
    /// Top-level folder for this region's secrets.
    pub folder: String,
}

/// Settings of one deployment region.
#[derive(Clone, Debug)]
pub struct Region {
    pub name: String,
    /// Namespace services deploy into in this region.
    pub namespace: String,
    /// Environment name injected into manifests resolved here.
    pub environment: String,
    pub versioningScheme: VersionScheme,
    pub vault: VaultConfig,
}

/// The master configuration: defaults, teams, regions and locations.
#[derive(Clone, Debug)]
pub struct Config {
    pub defaults: ManifestDefaults,
    pub teams: Vec<Team>,
    pub regions: Vec<Region>,
    pub locations: Vec<String>,
}

impl Config {
    /// The declared team names, in order.
    pub open spec fn team_names_view(self) -> Seq<Seq<char>> {
        self.teams@.map_values(|t: Team| t.name@)
    }

    /// The declared team names, for checks that need them as strings.
    pub fn team_names(&self) -> (r: Vec<String>)
        ensures
            strs_view(r@) == self.team_names_view(),
    {
        let mut out: Vec<String> = Vec::new();
        let mut i: usize = 0;
        while i < self.teams.len()
            invariant
                i <= self.teams.len(),
                strs_view(out@) =~= self.team_names_view().take(i as int),
            decreases self.teams.len() - i,
        {
            let ghost prev = out@;
            out.push(self.teams[i].name.clone());
            proof {
                crate::strutil::lemma_strs_view_push(prev, self.teams@[i as int].name);
                crate::strutil::lemma_take_one_more(self.team_names_view(), i as int);
                assert(self.team_names_view()[i as int] == self.teams@[i as int].name@);
            }
            i += 1;
        }
        assert(self.team_names_view().take(self.teams.len() as int) =~= self.team_names_view());
        out
    }

    /// The names of the supported regions, in order.
    pub open spec fn region_names_view(self) -> Seq<Seq<char>> {
        self.regions@.map_values(|r: Region| r.name@)
    }

    /// The names of the supported regions.
    pub fn region_names(&self) -> (r: Vec<String>)
        ensures
            strs_view(r@) == self.region_names_view(),
    {
        let mut out: Vec<String> = Vec::new();
        let mut i: usize = 0;
        while i < self.regions.len()
            invariant
                i <= self.regions.len(),
                strs_view(out@) =~= self.region_names_view().take(i as int),
            decreases self.regions.len() - i,
        {
            let ghost prev = out@;
            out.push(self.regions[i].name.clone());
            proof {
                crate::strutil::lemma_strs_view_push(prev, self.regions@[i as int].name);
                crate::strutil::lemma_take_one_more(self.region_names_view(), i as int);
                assert(self.region_names_view()[i as int] == self.regions@[i as int].name@);
            }
            i += 1;
        }
        assert(self.region_names_view().take(self.regions.len() as int)
            =~= self.region_names_view());
        out
    }

    /// The names of the supported locations.
    pub fn location_names(&self) -> (r: Vec<String>)
        ensures
            strs_view(r@) == strs_view(self.locations@),
    {
        let mut out: Vec<String> = Vec::new();
        let mut i: usize = 0;
        while i < self.locations.len()
            invariant
                i <= self.locations.len(),
                strs_view(out@) =~= strs_view(self.locations@).take(i as int),
            decreases self.locations.len() - i,
        {
            let ghost prev = out@;
            out.push(self.locations[i].clone());
            proof {
                crate::strutil::lemma_strs_view_push(prev, self.locations@[i as int]);
                crate::strutil::lemma_take_one_more(strs_view(self.locations@), i as int);
                assert(strs_view(self.locations@)[i as int] == self.locations@[i as int]@);
            }
            i += 1;
        }
        assert(strs_view(self.locations@).take(self.locations.len() as int)
            =~= strs_view(self.locations@));
        out
    }
}

} // verus!

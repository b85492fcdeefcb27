//! The data that nvmman reads from the machine and keeps in its registry.

use vstd::prelude::*;

verus! {

/// A global npm package installed in one Node.js version.
#[derive(Debug)]
pub struct Package {
    pub name: String,
    pub version: String,
}

/// One Node.js version installed by nvm, with its global packages.
#[derive(Debug)]
pub struct NodeInstallation {
    pub version: String,
    pub architecture: String,
    pub packages: Vec<Package>,
}

/// The newest long-term-support release of Node.js.
#[derive(Debug)]
pub struct LatestLts {
    pub version: String,
    pub name: String,
    pub date: String,
}

/// The state of the machine as the dashboard shows it.
#[derive(Debug)]
pub struct Snapshot {
    pub latest_lts: LatestLts,
    pub host_architecture: String,
    pub default_node: Option<String>,
    pub installations: Vec<NodeInstallation>,
    pub registry_path: String,
}

/// One version of a package and the Node.js versions that carry it.
#[derive(Debug)]
pub struct PackageOccurrence {
    pub version: String,
    pub node_versions: Vec<String>,
}

/// What the registry records of one package: the version to restore and
/// every version seen.
#[derive(Debug)]
pub struct RegistryEntry {
    pub selected_version: String,
    pub occurrences: Vec<PackageOccurrence>,
}

/// The consolidated registry of global packages over all Node.js versions.
/// `packages` is ordered by package name, each name once.
#[derive(Debug)]
pub struct Registry {
    pub schema_version: u32,
    pub generated_at: String,
    pub host_architecture: String,
    pub scanned_node_versions: Vec<String>,
    pub source_node_versions: Vec<String>,
    pub packages: Vec<(String, RegistryEntry)>,
}

/// The `lts` field of a release in the Node.js release index: `false` for
/// a current release, the line's name (`"Jod"`) for an LTS release.
#[derive(Debug)]
pub enum LtsLabel {
    Null,
    Flag(bool),
    Name(String),
    Other,
}

/// A release listed in the Node.js release index, newest first.
#[derive(Debug)]
pub struct NodeRelease {
    pub version: String,
    pub lts: LtsLabel,
    pub date: String,
}

/// A package with a newer published version.
#[derive(Debug)]
pub struct UpdateCandidate {
    pub package: Package,
    pub latest_version: String,
}

impl Package {
    /// A copy of the package.
    pub fn duplicate(&self) -> (r: Package)
        ensures
            r == *self,
    {
        Package { name: self.name.clone(), version: self.version.clone() }
    }
}

impl UpdateCandidate {
    /// A copy of the candidate.
    pub fn duplicate(&self) -> (r: UpdateCandidate)
        ensures
            r == *self,
    {
        UpdateCandidate { package: self.package.duplicate(), latest_version: self.latest_version.clone() }
    }
}

/// The texts of a sequence of strings.
pub open spec fn text_seq(s: Seq<String>) -> Seq<Seq<char>> {
    s.map_values(|x: String| x@)
}

} // verus!

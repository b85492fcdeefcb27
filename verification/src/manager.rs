//! What nvmman decides about an nvm directory: where things are, what the
//! registry records, which packages to restore and which to update.  The
//! commands that read the machine run in the application; their outputs are
//! handed to these functions.

use vstd::prelude::*;
use crate::machine::{default_version_spec};
use crate::model::{LatestLts, LtsLabel, NodeRelease, NodeInstallation, Package, Registry, Snapshot, UpdateCandidate, text_seq};
use crate::registry::{consolidate, consolidates};
use crate::sorting::{insert_stable, stable_sort, lemma_insert_stable_at};
use crate::text::{decimal, decimal_text, text_eq, text_less, text_lt, trim, trim_spec};

verus! {

/// `PathBuf::join` on Unix for a component: an absolute component replaces
/// the path; otherwise it is appended after a `/`, unless the path is empty
/// or already ends in one.
pub open spec fn path_join(base: Seq<char>, part: Seq<char>) -> Seq<char> {
    if part.len() > 0 && part[0] == '/' {
        part
    } else if base.len() == 0 || base.last() == '/' {
        base + part
    } else {
        base + "/"@ + part
    }
}

/// Joins a path component to a path, as `PathBuf::join` does on Unix.
pub fn join_path(base: &str, part: &str) -> (r: String)
    ensures
        r@ == path_join(base@, part@),
{
    let b = crate::text::chars_of(base);
    let p = crate::text::chars_of(part);
    if p.len() > 0 && p[0] == '/' {
        return part.to_owned();
    }
    let mut r = base.to_owned();
    if !(b.len() == 0 || b[b.len() - 1] == '/') {
        r.append("/");
    }
    r.append(part);
    r
}

/// The nvm installation that nvmman manages.
pub struct Manager {
    pub nvm_dir: String,
}

/// The file in which the registry is kept.
pub open spec fn registry_path_spec(nvm_dir: Seq<char>) -> Seq<char> {
    path_join(nvm_dir, "global-packages-registry.json"@)
}

/// The directory of one installed Node.js version.
pub open spec fn version_dir(nvm_dir: Seq<char>, version: Seq<char>) -> Seq<char> {
    path_join(path_join(nvm_dir, "versions/node"@), version)
}

/// The views of update candidates: name, installed version, latest version.
pub open spec fn candidate_view(c: UpdateCandidate) -> (Seq<char>, Seq<char>, Seq<char>) {
    (c.package.name@, c.package.version@, c.latest_version@)
}

pub open spec fn candidate_views(s: Seq<UpdateCandidate>) -> Seq<(Seq<char>, Seq<char>, Seq<char>)> {
    s.map_values(|c: UpdateCandidate| candidate_view(c))
}

/// Candidates are ordered by package name.
pub open spec fn by_name() -> spec_fn((Seq<char>, Seq<char>, Seq<char>), (Seq<char>, Seq<char>, Seq<char>)) -> bool {
    |a: (Seq<char>, Seq<char>, Seq<char>), b: (Seq<char>, Seq<char>, Seq<char>)| text_lt(a.0, b.0)
}

/// The updates offered for packages given the latest published version of
/// each (the output of `npm view <name> version`): those whose trimmed
/// latest version is not empty and differs from the installed one, in the
/// packages' order.
pub open spec fn update_views(packages: Seq<Package>, latest: Seq<String>) -> Seq<(Seq<char>, Seq<char>, Seq<char>)>
    decreases packages.len(),
{
    if packages.len() == 0 || latest.len() == 0 {
        Seq::empty()
    } else {
        let rest = update_views(packages.drop_last(), latest.drop_last());
        let p = packages.last();
        let l = trim_spec(latest.last()@);
        if l.len() > 0 && l != p.version@ {
            rest.push((p.name@, p.version@, l))
        } else {
            rest
        }
    }
}

/// The Node.js versions of the installations, in order.
pub open spec fn installation_versions(insts: Seq<NodeInstallation>) -> Seq<Seq<char>> {
    insts.map_values(|n: NodeInstallation| n.version@)
}

/// The Node.js versions of the installations that carry global packages.
pub open spec fn source_versions(insts: Seq<NodeInstallation>) -> Seq<Seq<char>>
    decreases insts.len(),
{
    if insts.len() == 0 {
        Seq::empty()
    } else {
        let rest = source_versions(insts.drop_last());
        if insts.last().packages@.len() > 0 {
            rest.push(insts.last().version@)
        } else {
            rest
        }
    }
}

/// `items` joined by `sep`.
pub open spec fn join_texts(items: Seq<Seq<char>>, sep: Seq<char>) -> Seq<char>
    decreases items.len(),
{
    if items.len() == 0 {
        Seq::empty()
    } else if items.len() == 1 {
        items[0]
    } else {
        join_texts(items.drop_last(), sep) + sep + items.last()
    }
}

/// Joins texts with a separator, as `[String]::join` does.
pub fn join_strings(items: &Vec<String>, sep: &str) -> (r: String)
    ensures
        r@ == join_texts(text_seq(items@), sep@),
{
    let ghost t = text_seq(items@);
    let mut r = String::new();
    let mut i: usize = 0;
    while i < items.len()
        invariant
            i <= items.len(),
            t == text_seq(items@),
            r@ == join_texts(t.take(i as int), sep@),
        decreases items.len() - i,
    {
        proof {
            assert(t.take(i + 1).drop_last() =~= t.take(i as int));
            assert(t.take(i + 1).last() == items@[i as int]@);
        }
        if i > 0 {
            r.append(sep);
        } else {
            proof {
                assert(r@ =~= Seq::<char>::empty());
            }
        }
        r.append(items[i].as_str());
        i = i + 1;
    }
    proof {
        assert(t.take(items.len() as int) =~= t);
    }
    r
}

/// The message after restoring the registry into Node.js `version`, given
/// the failures (one text per package that could not be installed).
pub open spec fn restore_message(version: Seq<char>, failures: Seq<Seq<char>>) -> Seq<char> {
    if failures.len() == 0 {
        "Restored all registry packages into "@ + version + "."@
    } else {
        "Restored packages into "@ + version + "; "@ + decimal(failures.len()) + " package(s) need attention: "@
            + join_texts(failures, " | "@)
    }
}

/// The install argument `name@version`.
pub open spec fn install_spec(name: Seq<char>, version: Seq<char>) -> Seq<char> {
    name + "@"@ + version
}

/// The text `name@version`, as the views show packages and as
/// `npm install` takes them.
pub fn package_label(name: &str, version: &str) -> (r: String)
    ensures
        r@ == install_spec(name@, version@),
{
    let mut r = name.to_owned();
    r.append("@");
    r.append(version);
    r
}

impl Registry {
    /// The `npm install -g` arguments that restore the registry: each
    /// package at its selected version, in name order.
    pub fn restore_specs(&self) -> (r: Vec<String>)
        ensures
            r@.len() == self.packages@.len(),
            forall|i: int| 0 <= i < r@.len() ==> (#[trigger] r@[i])@ == install_spec(
                self.packages@[i].0@,
                self.packages@[i].1.selected_version@,
            ),
    {
        let mut r: Vec<String> = Vec::new();
        let mut i: usize = 0;
        while i < self.packages.len()
            invariant
                i <= self.packages.len(),
                r@.len() == i,
                forall|k: int| 0 <= k < i ==> (#[trigger] r@[k])@ == install_spec(
                    self.packages@[k].0@,
                    self.packages@[k].1.selected_version@,
                ),
            decreases self.packages.len() - i,
        {
            let (name, entry) = &self.packages[i];
            r.push(package_label(name.as_str(), entry.selected_version.as_str()));
            i = i + 1;
        }
        r
    }
}

impl UpdateCandidate {
    /// The `npm install -g` argument that installs the latest version.
    pub fn install_spec(&self) -> (r: String)
        ensures
            r@ == install_spec(self.package.name@, self.latest_version@),
    {
        package_label(self.package.name.as_str(), self.latest_version.as_str())
    }
}

/// The message after updating a package in Node.js `version`.
pub open spec fn updated_message(name: Seq<char>, version: Seq<char>) -> Seq<char> {
    "Updated "@ + name + " in "@ + version + "."@
}

/// The message after a registry sync of `count` packages.
pub open spec fn synced_message(count: nat) -> Seq<char> {
    "Registry synced: "@ + decimal(count) + " packages."@
}

/// Reports a registry sync.
pub fn synced_report(count: usize) -> (r: String)
    ensures
        r@ == synced_message(count as nat),
{
    let mut r = "Registry synced: ".to_owned();
    let n = decimal_text(count as u64);
    r.append(n.as_str());
    r.append(" packages.");
    r
}

fn insert_candidate(sorted: &mut Vec<UpdateCandidate>, c: UpdateCandidate)
    ensures
        candidate_views(final(sorted)@) == insert_stable(candidate_views(old(sorted)@), candidate_view(c), by_name()),
{
    let ghost s = candidate_views(sorted@);
    let ghost x = candidate_view(c);
    let mut pos: usize = sorted.len();
    while pos > 0 && text_less(c.package.name.as_str(), sorted[pos - 1].package.name.as_str())
        invariant
            pos <= sorted.len(),
            s == candidate_views(sorted@),
            x == candidate_view(c),
            forall|i: int| pos <= i < s.len() ==> (by_name())(x, #[trigger] s[i]),
        decreases pos,
    {
        proof {
            assert(s[pos - 1] == candidate_view(sorted@[pos - 1]));
        }
        pos = pos - 1;
    }
    proof {
        if pos > 0 {
            assert(s[pos - 1] == candidate_view(sorted@[pos - 1]));
        }
        lemma_insert_stable_at(s, x, by_name(), pos as int);
    }
    sorted.insert(pos, c);
    proof {
        assert(candidate_views(sorted@) =~= s.insert(pos as int, x));
    }
}

/// Sorts update candidates by package name, keeping the order of equal
/// names, as `sort_by` on the names does.
pub fn sort_candidates(items: Vec<UpdateCandidate>) -> (r: Vec<UpdateCandidate>)
    ensures
        candidate_views(r@) == stable_sort(candidate_views(items@), by_name()),
{
    let ghost all = candidate_views(items@);
    let mut rest = items;
    let n = rest.len();
    let mut r: Vec<UpdateCandidate> = Vec::new();
    let mut k: usize = 0;
    while rest.len() > 0
        invariant
            k + rest.len() == all.len(),
            all.len() == n,
            candidate_views(rest@) == all.skip(k as int),
            candidate_views(r@) == stable_sort(all.take(k as int), by_name()),
        decreases rest.len(),
    {
        let ghost old_rest = rest@;
        let c = rest.remove(0);
        proof {
            assert(all.take(k + 1).drop_last() =~= all.take(k as int));
            assert(all.take(k + 1).last() == all.skip(k as int)[0]);
            assert(candidate_view(c) == candidate_views(old_rest)[0]);
            assert(rest@ =~= old_rest.drop_first());
            assert(candidate_views(rest@) =~= candidate_views(old_rest).drop_first());
            assert(all.skip(k as int).drop_first() =~= all.skip(k + 1));
        }
        insert_candidate(&mut r, c);
        k = k + 1;
    }
    proof {
        assert(all.take(k as int) =~= all);
    }
    r
}

/// Whether an index entry is an LTS release: its label is neither null nor
/// `false`.
pub open spec fn is_lts(r: NodeRelease) -> bool {
    match r.lts {
        LtsLabel::Null => false,
        LtsLabel::Flag(b) => b,
        _ => true,
    }
}

/// The name of an LTS line: the label's text, or `LTS` when the label is
/// not a text.
pub open spec fn lts_name(r: NodeRelease) -> Seq<char> {
    match r.lts {
        LtsLabel::Name(n) => n@,
        _ => "LTS"@,
    }
}

impl Manager {
    /// The newest LTS release: the first LTS entry of the release index.
    /// `None` when the index lists no LTS release.
    pub fn latest_lts(releases: &Vec<NodeRelease>) -> (r: Option<LatestLts>)
        ensures
            r is None <==> forall|i: int| 0 <= i < releases@.len() ==> !is_lts(#[trigger] releases@[i]),
            r matches Some(l) ==> exists|i: int| {
                &&& 0 <= i < releases@.len()
                &&& is_lts(#[trigger] releases@[i])
                &&& forall|k: int| 0 <= k < i ==> !is_lts(#[trigger] releases@[k])
                &&& l.version@ == releases@[i].version@
                &&& l.name@ == lts_name(releases@[i])
                &&& l.date@ == releases@[i].date@
            },
    {
        let mut i: usize = 0;
        while i < releases.len()
            invariant
                i <= releases.len(),
                forall|k: int| 0 <= k < i ==> !is_lts(#[trigger] releases@[k]),
            decreases releases.len() - i,
        {
            let release = &releases[i];
            let lts = match &release.lts {
                LtsLabel::Null => false,
                LtsLabel::Flag(b) => *b,
                _ => true,
            };
            if lts {
                let name = match &release.lts {
                    LtsLabel::Name(n) => n.clone(),
                    _ => "LTS".to_owned(),
                };
                let l = LatestLts { version: release.version.clone(), name, date: release.date.clone() };
                proof {
                    assert(is_lts(releases@[i as int]));
                }
                return Some(l);
            }
            i = i + 1;
        }
        None
    }

    /// The registry file, `<nvm dir>/global-packages-registry.json`.
    pub fn registry_path(&self) -> (r: String)
        ensures
            r@ == registry_path_spec(self.nvm_dir@),
    {
        join_path(self.nvm_dir.as_str(), "global-packages-registry.json")
    }

    fn version_dir(&self, version: &str) -> (r: String)
        ensures
            r@ == version_dir(self.nvm_dir@, version@),
    {
        let versions = join_path(self.nvm_dir.as_str(), "versions/node");
        join_path(versions.as_str(), version)
    }

    /// The `node` binary of an installed version.
    pub fn node_bin(&self, version: &str) -> (r: String)
        ensures
            r@ == path_join(version_dir(self.nvm_dir@, version@), "bin/node"@),
    {
        let dir = self.version_dir(version);
        join_path(dir.as_str(), "bin/node")
    }

    /// The `npm` binary of an installed version.
    pub fn npm_bin(&self, version: &str) -> (r: String)
        ensures
            r@ == path_join(version_dir(self.nvm_dir@, version@), "bin/npm"@),
    {
        let dir = self.version_dir(version);
        join_path(dir.as_str(), "bin/npm")
    }

    /// The directory of the global packages of an installed version.
    pub fn node_root(&self, version: &str) -> (r: String)
        ensures
            r@ == path_join(version_dir(self.nvm_dir@, version@), "lib/node_modules"@),
    {
        let dir = self.version_dir(version);
        join_path(dir.as_str(), "lib/node_modules")
    }

    /// The nvm default version, from the output of `nvm version default`.
    pub fn default_node_version(&self, output: &str) -> (r: Option<String>)
        ensures
            match r {
                Some(v) => default_version_spec(output@) == Some(v@),
                None => default_version_spec(output@) is None,
            },
    {
        let version = trim(output);
        if version.as_str().is_empty() || text_eq(version.as_str(), "N/A") {
            None
        } else {
            Some(version)
        }
    }

    /// The machine state, from what was read of it.
    pub fn snapshot(
        &self,
        installations: Vec<NodeInstallation>,
        latest_lts: LatestLts,
        host_architecture: String,
        default_node: Option<String>,
    ) -> (r: Snapshot)
        ensures
            r.installations == installations,
            r.latest_lts == latest_lts,
            r.host_architecture == host_architecture,
            r.default_node == default_node,
            r.registry_path@ == registry_path_spec(self.nvm_dir@),
    {
        Snapshot {
            latest_lts,
            host_architecture,
            default_node,
            installations,
            registry_path: self.registry_path(),
        }
    }

    /// The registry of every installation's global packages (schema 1).
    pub fn sync_registry(
        &self,
        installations: &Vec<NodeInstallation>,
        generated_at: String,
        host_architecture: String,
    ) -> (r: Registry)
        ensures
            r.schema_version == 1,
            r.generated_at == generated_at,
            r.host_architecture == host_architecture,
            text_seq(r.scanned_node_versions@) == installation_versions(installations@),
            text_seq(r.source_node_versions@) == source_versions(installations@),
            consolidates(installations@, r.packages@),
    {
        let ghost insts = installations@;
        let mut scanned: Vec<String> = Vec::new();
        let mut source: Vec<String> = Vec::new();
        let mut i: usize = 0;
        while i < installations.len()
            invariant
                i <= installations.len(),
                insts == installations@,
                text_seq(scanned@) == installation_versions(insts.take(i as int)),
                text_seq(source@) == source_versions(insts.take(i as int)),
            decreases installations.len() - i,
        {
            proof {
                assert(insts.take(i + 1).drop_last() =~= insts.take(i as int));
            }
            let ghost old_scanned = scanned@;
            let ghost old_source = source@;
            let v = installations[i].version.clone();
            assert(v@ == insts[i as int].version@);
            scanned.push(v);
            if installations[i].packages.len() > 0 {
                source.push(installations[i].version.clone());
            }
            proof {
                assert(text_seq(scanned@) =~= text_seq(old_scanned).push(insts[i as int].version@));
                assert(text_seq(scanned@) =~= installation_versions(insts.take(i + 1)));
                assert(text_seq(source@) =~= source_versions(insts.take(i + 1)));
            }
            i = i + 1;
        }
        proof {
            assert(insts.take(i as int) =~= insts);
        }
        Registry {
            schema_version: 1,
            generated_at,
            host_architecture,
            scanned_node_versions: scanned,
            source_node_versions: source,
            packages: consolidate(installations),
        }
    }

    /// The message after restoring the registry into Node.js `version`,
    /// given the failures (`<name>@<version>: <error>` for each package
    /// that could not be installed).
    pub fn restore_registry(&self, version: &str, failures: &Vec<String>) -> (r: String)
        ensures
            r@ == restore_message(version@, text_seq(failures@)),
    {
        if failures.len() == 0 {
            let mut r = "Restored all registry packages into ".to_owned();
            r.append(version);
            r.append(".");
            r
        } else {
            let mut r = "Restored packages into ".to_owned();
            r.append(version);
            r.append("; ");
            let n = decimal_text(failures.len() as u64);
            r.append(n.as_str());
            r.append(" package(s) need attention: ");
            let joined = join_strings(failures, " | ");
            r.append(joined.as_str());
            r
        }
    }

    /// The available updates of the default Node's packages, given the
    /// latest published version of each package, sorted by package name.
    pub fn updates(&self, packages: &Vec<Package>, latest: &Vec<String>) -> (r: Vec<UpdateCandidate>)
        requires
            packages.len() == latest.len(),
        ensures
            candidate_views(r@) == stable_sort(update_views(packages@, latest@), by_name()),
    {
        let mut found: Vec<UpdateCandidate> = Vec::new();
        let mut i: usize = 0;
        while i < packages.len()
            invariant
                i <= packages.len(),
                packages.len() == latest.len(),
                candidate_views(found@) == update_views(packages@.take(i as int), latest@.take(i as int)),
            decreases packages.len() - i,
        {
            proof {
                assert(packages@.take(i + 1).drop_last() =~= packages@.take(i as int));
                assert(latest@.take(i + 1).drop_last() =~= latest@.take(i as int));
            }
            let l = trim(latest[i].as_str());
            if !l.as_str().is_empty() && !text_eq(l.as_str(), packages[i].version.as_str()) {
                found.push(UpdateCandidate { package: packages[i].duplicate(), latest_version: l });
            }
            proof {
                assert(candidate_views(found@) =~= update_views(packages@.take(i + 1), latest@.take(i + 1)));
            }
            i = i + 1;
        }
        proof {
            assert(packages@.take(i as int) =~= packages@);
            assert(latest@.take(i as int) =~= latest@);
        }
        sort_candidates(found)
    }

    /// The message after updating a candidate in Node.js `version`.
    pub fn update_package(&self, candidate: &UpdateCandidate, version: &str) -> (r: String)
        ensures
            r@ == updated_message(candidate.package.name@, version@),
    {
        let mut r = "Updated ".to_owned();
        r.append(candidate.package.name.as_str());
        r.append(" in ");
        r.append(version);
        r.append(".");
        r
    }
}

/// The updates are listed by package name: no candidate comes after one
/// whose name sorts later, and every candidate found is listed.
pub proof fn law_updates_listed_by_name(packages: Seq<Package>, latest: Seq<String>)
    ensures
        forall|i: int, j: int| 0 <= i < j < stable_sort(update_views(packages, latest), by_name()).len()
            ==> !text_lt(
            stable_sort(update_views(packages, latest), by_name())[j].0,
            stable_sort(update_views(packages, latest), by_name())[i].0,
        ),
        stable_sort(update_views(packages, latest), by_name()).to_multiset() == update_views(packages, latest).to_multiset(),
{
    let order = by_name();
    assert forall|a: (Seq<char>, Seq<char>, Seq<char>), b: (Seq<char>, Seq<char>, Seq<char>)| #[trigger] order(a, b) implies !order(b, a) by {
        crate::text::lemma_text_lt_trichotomy(a.0, b.0);
    }
    assert forall|a: (Seq<char>, Seq<char>, Seq<char>), b: (Seq<char>, Seq<char>, Seq<char>), c: (Seq<char>, Seq<char>, Seq<char>)|
        #![trigger order(a, b), order(b, c)] !order(a, b) && !order(b, c) implies !order(a, c) by {
        crate::text::lemma_text_lt_trichotomy(a.0, b.0);
        crate::text::lemma_text_lt_trichotomy(b.0, c.0);
        crate::text::lemma_text_lt_trichotomy(a.0, c.0);
        if order(a, c) {
            if text_lt(b.0, a.0) {
                crate::text::lemma_text_lt_transitive(b.0, a.0, c.0);
            }
            if text_lt(c.0, b.0) {
                crate::text::lemma_text_lt_transitive(a.0, c.0, b.0);
            }
        }
    }
    crate::sorting::lemma_stable_sort_sorted(update_views(packages, latest), order);
    crate::sorting::lemma_stable_sort_permutes(update_views(packages, latest), order);
}

proof fn lemma_update_views_are_updates(packages: Seq<Package>, latest: Seq<String>)
    ensures
        forall|i: int| 0 <= i < update_views(packages, latest).len() ==> {
            &&& (#[trigger] update_views(packages, latest)[i]).2.len() > 0
            &&& update_views(packages, latest)[i].2 != update_views(packages, latest)[i].1
        },
    decreases packages.len(),
{
    if packages.len() > 0 && latest.len() > 0 {
        let rest = update_views(packages.drop_last(), latest.drop_last());
        lemma_update_views_are_updates(packages.drop_last(), latest.drop_last());
        let all = update_views(packages, latest);
        assert forall|i: int| 0 <= i < all.len() implies {
            &&& (#[trigger] all[i]).2.len() > 0
            &&& all[i].2 != all[i].1
        } by {
            if i < rest.len() {
                assert(all[i] == rest[i]);
            }
        }
    }
}

/// Every update offered is a real one: its latest version is not empty and
/// differs from the installed version.
pub proof fn law_updates_are_real_updates(packages: Seq<Package>, latest: Seq<String>)
    ensures
        forall|c: (Seq<char>, Seq<char>, Seq<char>)| stable_sort(update_views(packages, latest), by_name()).contains(c)
            ==> c.2.len() > 0 && c.2 != c.1,
{
    broadcast use vstd::seq_lib::group_to_multiset_ensures;
    let found = update_views(packages, latest);
    lemma_update_views_are_updates(packages, latest);
    crate::sorting::lemma_stable_sort_permutes(found, by_name());
    assert forall|c: (Seq<char>, Seq<char>, Seq<char>)| stable_sort(found, by_name()).contains(c) implies c.2.len() > 0 && c.2 != c.1 by {
        assert(found.to_multiset().count(c) > 0);
        assert(found.contains(c));
        let i = choose|i: int| 0 <= i < found.len() && found[i] == c;
        assert(found[i] == c);
    }
}

proof fn lemma_update_views_complete(packages: Seq<Package>, latest: Seq<String>, i: int)
    requires
        packages.len() == latest.len(),
        0 <= i < packages.len(),
        trim_spec(latest[i]@).len() > 0,
        trim_spec(latest[i]@) != packages[i].version@,
    ensures
        update_views(packages, latest).contains((packages[i].name@, packages[i].version@, trim_spec(latest[i]@))),
    decreases packages.len(),
{
    let all = update_views(packages, latest);
    let rest = update_views(packages.drop_last(), latest.drop_last());
    let t = (packages[i].name@, packages[i].version@, trim_spec(latest[i]@));
    if i == packages.len() - 1 {
        assert(all == rest.push(t));
        assert(all[rest.len() as int] == t);
    } else {
        assert(packages.drop_last()[i] == packages[i]);
        assert(latest.drop_last()[i] == latest[i]);
        lemma_update_views_complete(packages.drop_last(), latest.drop_last(), i);
        let k = choose|k: int| 0 <= k < rest.len() && rest[k] == t;
        assert(all[k] == t);
    }
}

/// Every update is offered: a package whose trimmed latest published
/// version is not empty and differs from the installed version is listed,
/// with that latest version, whichever way the two versions compare.
pub proof fn law_updates_list_every_update(packages: Seq<Package>, latest: Seq<String>, i: int)
    requires
        packages.len() == latest.len(),
        0 <= i < packages.len(),
        trim_spec(latest[i]@).len() > 0,
        trim_spec(latest[i]@) != packages[i].version@,
    ensures
        stable_sort(update_views(packages, latest), by_name()).contains(
            (packages[i].name@, packages[i].version@, trim_spec(latest[i]@)),
        ),
{
    broadcast use vstd::seq_lib::group_to_multiset_ensures;
    let found = update_views(packages, latest);
    let t = (packages[i].name@, packages[i].version@, trim_spec(latest[i]@));
    lemma_update_views_complete(packages, latest, i);
    crate::sorting::lemma_stable_sort_permutes(found, by_name());
    assert(found.to_multiset().count(t) > 0);
    assert(stable_sort(found, by_name()).to_multiset().count(t) > 0);
}

} // verus!

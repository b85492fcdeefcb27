//! The texts the views show: what the dashboard, the package table, the
//! registry view, the footer and the confirmation dialogs say.

use vstd::prelude::*;
use crate::manager::{install_spec, join_strings, join_texts};
use crate::model::{NodeInstallation, PackageOccurrence, Registry, Snapshot, UpdateCandidate, text_seq};
use crate::text::{decimal, decimal_text, text_eq};
use crate::ui::Task;

verus! {

/// Appends the parts to a text, in order.
fn concat(parts: &Vec<&str>) -> (r: String)
    ensures
        r@ == concat_spec(parts@.map_values(|p: &str| p@)),
{
    let ghost ps = parts@.map_values(|p: &str| p@);
    let mut r = String::new();
    let mut i: usize = 0;
    while i < parts.len()
        invariant
            i <= parts.len(),
            ps == parts@.map_values(|p: &str| p@),
            r@ == concat_spec(ps.take(i as int)),
        decreases parts.len() - i,
    {
        proof {
            assert(ps.take(i + 1).drop_last() =~= ps.take(i as int));
            assert(ps.take(i + 1).last() == parts@[i as int]@);
        }
        r.append(parts[i]);
        i = i + 1;
    }
    proof {
        assert(ps.take(parts.len() as int) =~= ps);
    }
    r
}

/// The texts one after the other.
pub open spec fn concat_spec(parts: Seq<Seq<char>>) -> Seq<char>
    decreases parts.len(),
{
    if parts.len() == 0 {
        Seq::empty()
    } else {
        concat_spec(parts.drop_last()) + parts.last()
    }
}

/// The nvm default as the dashboard names it.
pub open spec fn default_label(s: Snapshot) -> Seq<char> {
    match s.default_node {
        Some(v) => v@,
        None => "not configured"@,
    }
}

/// The architecture of the first installation of a version, or `unknown`.
pub open spec fn architecture_of(insts: Seq<NodeInstallation>, version: Seq<char>) -> Seq<char>
    decreases insts.len(),
{
    if insts.len() == 0 {
        "unknown"@
    } else if insts[0].version@ == version {
        insts[0].architecture@
    } else {
        architecture_of(insts.drop_first(), version)
    }
}

/// The dashboard's line for one installation.
pub open spec fn installation_line(n: NodeInstallation) -> Seq<char> {
    n.version@ + " ("@ + n.architecture@ + ", "@ + decimal(n.packages@.len()) + " packages)"@
}

/// What the dashboard shows of a snapshot.
pub struct DashboardText {
    /// The latest LTS: version, name and date.
    pub latest_lts: String,
    /// The nvm default.
    pub default_node: String,
    /// The host and default architectures and whether they agree.
    pub architecture: String,
    /// Whether the default Node.js runs natively on the host.
    pub native: bool,
    /// One line per installation.
    pub installations: Vec<String>,
}

fn architecture_of_default(insts: &Vec<NodeInstallation>, version: &str) -> (r: String)
    ensures
        r@ == architecture_of(insts@, version@),
{
    let mut i: usize = 0;
    proof {
        assert(insts@.skip(0) =~= insts@);
    }
    while i < insts.len()
        invariant
            i <= insts.len(),
            architecture_of(insts@, version@) == architecture_of(insts@.skip(i as int), version@),
        decreases insts.len() - i,
    {
        proof {
            assert(insts@.skip(i as int).drop_first() =~= insts@.skip(i + 1));
            assert(insts@.skip(i as int)[0] == insts@[i as int]);
        }
        if text_eq(insts[i].version.as_str(), version) {
            return insts[i].architecture.clone();
        }
        i = i + 1;
    }
    "unknown".to_owned()
}

fn installation_text(n: &NodeInstallation) -> (r: String)
    ensures
        r@ == installation_line(*n),
{
    let count = decimal_text(n.packages.len() as u64);
    let parts = vec![n.version.as_str(), " (", n.architecture.as_str(), ", ", count.as_str(), " packages)"];
    let r = concat(&parts);
    proof {
        reveal_with_fuel(concat_spec, 7);
        assert(parts@.map_values(|p: &str| p@) =~= seq![n.version@, " ("@, n.architecture@, ", "@, count@, " packages)"@]);
    }
    r
}

/// The dashboard's texts for a snapshot.
pub fn dashboard_text(s: &Snapshot) -> (r: DashboardText)
    ensures
        r.latest_lts@ == s.latest_lts.version@ + "  "@ + s.latest_lts.name@ + "  "@ + s.latest_lts.date@,
        r.default_node@ == default_label(*s),
        r.native == (architecture_of(s.installations@, default_label(*s)) == s.host_architecture@),
        r.architecture@ == " host: "@ + s.host_architecture@ + "  default: "@ + architecture_of(
            s.installations@,
            default_label(*s),
        ) + "  ["@ + (if r.native { "native"@ } else { "check architecture"@ }) + "]"@,
        r.installations@.len() == s.installations@.len(),
        forall|i: int| 0 <= i < r.installations@.len() ==> (#[trigger] r.installations@[i])@ == installation_line(
            s.installations@[i],
        ),
{
    let parts = vec![s.latest_lts.version.as_str(), "  ", s.latest_lts.name.as_str(), "  ", s.latest_lts.date.as_str()];
    let latest_lts = concat(&parts);
    proof {
        reveal_with_fuel(concat_spec, 6);
        assert(parts@.map_values(|p: &str| p@) =~= seq![s.latest_lts.version@, "  "@, s.latest_lts.name@, "  "@, s.latest_lts.date@]);
    }
    let default_node = match &s.default_node {
        Some(v) => v.clone(),
        None => "not configured".to_owned(),
    };
    let arch = architecture_of_default(&s.installations, default_node.as_str());
    let native = text_eq(arch.as_str(), s.host_architecture.as_str());
    let status = if native { "native" } else { "check architecture" };
    let parts = vec![" host: ", s.host_architecture.as_str(), "  default: ", arch.as_str(), "  [", status, "]"];
    let architecture = concat(&parts);
    proof {
        reveal_with_fuel(concat_spec, 8);
        assert(parts@.map_values(|p: &str| p@) =~= seq![" host: "@, s.host_architecture@, "  default: "@, arch@, "  ["@, status@, "]"@]);
    }
    let mut installations: Vec<String> = Vec::new();
    let mut i: usize = 0;
    while i < s.installations.len()
        invariant
            i <= s.installations.len(),
            installations@.len() == i,
            forall|k: int| 0 <= k < i ==> (#[trigger] installations@[k])@ == installation_line(s.installations@[k]),
        decreases s.installations.len() - i,
    {
        installations.push(installation_text(&s.installations[i]));
        i = i + 1;
    }
    DashboardText { latest_lts, default_node, architecture, native, installations }
}

/// A row of the package table: Node.js version, architecture, package.
pub open spec fn package_row(n: NodeInstallation, package: Seq<char>) -> (Seq<char>, Seq<char>, Seq<char>) {
    (n.version@, n.architecture@, package)
}

/// The rows the package table shows for one installation: one per package
/// (`name@version`), or a single `-` row when it has none.
pub open spec fn installation_rows(n: NodeInstallation) -> Seq<(Seq<char>, Seq<char>, Seq<char>)> {
    if n.packages@.len() == 0 {
        seq![package_row(n, "-"@)]
    } else {
        Seq::new(n.packages@.len(), |j: int| package_row(n, install_spec(n.packages@[j].name@, n.packages@[j].version@)))
    }
}

/// The rows of the package table, installation after installation.
pub open spec fn package_rows_spec(insts: Seq<NodeInstallation>) -> Seq<(Seq<char>, Seq<char>, Seq<char>)>
    decreases insts.len(),
{
    if insts.len() == 0 {
        Seq::empty()
    } else {
        package_rows_spec(insts.drop_last()) + installation_rows(insts.last())
    }
}

pub open spec fn row_views(rows: Seq<(String, String, String)>) -> Seq<(Seq<char>, Seq<char>, Seq<char>)> {
    rows.map_values(|r: (String, String, String)| (r.0@, r.1@, r.2@))
}

/// The rows of the table of every installation's global packages.
pub fn package_rows(insts: &Vec<NodeInstallation>) -> (r: Vec<(String, String, String)>)
    ensures
        row_views(r@) == package_rows_spec(insts@),
{
    let mut rows: Vec<(String, String, String)> = Vec::new();
    let mut i: usize = 0;
    while i < insts.len()
        invariant
            i <= insts.len(),
            row_views(rows@) == package_rows_spec(insts@.take(i as int)),
        decreases insts.len() - i,
    {
        proof {
            assert(insts@.take(i + 1).drop_last() =~= insts@.take(i as int));
        }
        let n = &insts[i];
        let ghost before = row_views(rows@);
        if n.packages.len() == 0 {
            rows.push((n.version.clone(), n.architecture.clone(), "-".to_owned()));
            proof {
                assert(row_views(rows@) =~= before + installation_rows(*n));
            }
        } else {
            let mut j: usize = 0;
            while j < n.packages.len()
                invariant
                    j <= n.packages.len(),
                    n.packages.len() > 0,
                    row_views(rows@) == before + installation_rows(*n).take(j as int),
                decreases n.packages.len() - j,
            {
                let p = &n.packages[j];
                let label = crate::manager::package_label(p.name.as_str(), p.version.as_str());
                let ghost prev = rows@;
                rows.push((n.version.clone(), n.architecture.clone(), label));
                proof {
                    let all_rows = installation_rows(*n);
                    assert(all_rows[j as int] == package_row(*n, install_spec(p.name@, p.version@)));
                    assert(all_rows.take(j + 1) =~= all_rows.take(j as int).push(all_rows[j as int]));
                    assert(row_views(rows@) =~= row_views(prev).push(all_rows[j as int]));
                    assert(row_views(rows@) =~= before + installation_rows(*n).take(j + 1));
                }
                j = j + 1;
            }
            proof {
                assert(installation_rows(*n).take(j as int) =~= installation_rows(*n));
            }
        }
        i = i + 1;
    }
    proof {
        assert(insts@.take(i as int) =~= insts@);
    }
    rows
}

/// The registry view's line for one version of a package:
/// `<version> on <node>,<node>,...`.
pub open spec fn occurrence_text(o: PackageOccurrence) -> Seq<char> {
    o.version@ + " on "@ + join_texts(text_seq(o.node_versions@), ","@)
}

/// Where a registry package was seen: its occurrences joined by `; `.
pub open spec fn seen_text(occ: Seq<PackageOccurrence>) -> Seq<char> {
    join_texts(occ.map_values(|o: PackageOccurrence| occurrence_text(o)), "; "@)
}

fn seen(occ: &Vec<PackageOccurrence>) -> (r: String)
    ensures
        r@ == seen_text(occ@),
{
    let mut texts: Vec<String> = Vec::new();
    let mut i: usize = 0;
    while i < occ.len()
        invariant
            i <= occ.len(),
            texts@.len() == i,
            forall|k: int| 0 <= k < i ==> (#[trigger] texts@[k])@ == occurrence_text(occ@[k]),
        decreases occ.len() - i,
    {
        let mut t = occ[i].version.clone();
        t.append(" on ");
        let nodes = join_strings(&occ[i].node_versions, ",");
        t.append(nodes.as_str());
        texts.push(t);
        i = i + 1;
    }
    let r = join_strings(&texts, "; ");
    proof {
        assert(text_seq(texts@) =~= occ@.map_values(|o: PackageOccurrence| occurrence_text(o)));
    }
    r
}

/// The registry view's header lines: when it was generated, which Node.js
/// versions were scanned, and how many packages it holds.
pub open spec fn registry_header_spec(r: Registry) -> Seq<Seq<char>> {
    seq![
        "Generated: "@ + r.generated_at@,
        "Scanned: "@ + join_texts(text_seq(r.scanned_node_versions@), ", "@),
        "Packages: "@ + decimal(r.packages@.len()),
    ]
}

/// The registry view's header lines.
pub fn registry_header(registry: &Registry) -> (r: Vec<String>)
    ensures
        text_seq(r@) == registry_header_spec(*registry),
{
    let mut generated = "Generated: ".to_owned();
    generated.append(registry.generated_at.as_str());
    let mut scanned = "Scanned: ".to_owned();
    let joined = join_strings(&registry.scanned_node_versions, ", ");
    scanned.append(joined.as_str());
    let mut count = "Packages: ".to_owned();
    let n = decimal_text(registry.packages.len() as u64);
    count.append(n.as_str());
    let r = vec![generated, scanned, count];
    proof {
        assert(text_seq(r@) =~= registry_header_spec(*registry));
    }
    r
}

/// The registry view's line for each package: `name@selected` and where it
/// was seen.
pub fn registry_package_lines(registry: &Registry) -> (r: Vec<(String, String)>)
    ensures
        r@.len() == registry.packages@.len(),
        forall|i: int| 0 <= i < r@.len() ==> {
            &&& (#[trigger] r@[i]).0@ == install_spec(registry.packages@[i].0@, registry.packages@[i].1.selected_version@)
            &&& r@[i].1@ == "  ["@ + seen_text(registry.packages@[i].1.occurrences@) + "]"@
        },
{
    let mut r: Vec<(String, String)> = Vec::new();
    let mut i: usize = 0;
    while i < registry.packages.len()
        invariant
            i <= registry.packages.len(),
            r@.len() == i,
            forall|k: int| 0 <= k < i ==> {
                &&& (#[trigger] r@[k]).0@ == install_spec(registry.packages@[k].0@, registry.packages@[k].1.selected_version@)
                &&& r@[k].1@ == "  ["@ + seen_text(registry.packages@[k].1.occurrences@) + "]"@
            },
        decreases registry.packages.len() - i,
    {
        let (name, entry) = &registry.packages[i];
        let label = crate::manager::package_label(name.as_str(), entry.selected_version.as_str());
        let mut where_seen = "  [".to_owned();
        let s = seen(&entry.occurrences);
        where_seen.append(s.as_str());
        where_seen.append("]");
        r.push((label, where_seen));
        i = i + 1;
    }
    r
}

/// The footer's status: with `  Please wait` while a task runs.
pub fn footer_status(status: &str, busy: bool) -> (r: String)
    ensures
        r@ == (if busy { status@ + "  Please wait"@ } else { status@ }),
{
    let mut r = status.to_owned();
    if busy {
        r.append("  Please wait");
    }
    r
}

/// The heading of a confirmation dialog.
pub open spec fn confirmation_heading_spec(t: Task) -> Seq<char> {
    match t {
        Task::UpdatePackage(_) => "Confirm package update"@,
        _ => "Confirm action"@,
    }
}

/// The heading of the confirmation dialog for a task.
pub fn confirmation_heading(task: &Task) -> (r: String)
    ensures
        r@ == confirmation_heading_spec(*task),
{
    match task {
        Task::UpdatePackage(_) => {
            let r = String::from_str("Confirm package update");
            proof {
                reveal_strlit("Confirm package update");
            }
            r
        },
        _ => {
            let r = String::from_str("Confirm action");
            proof {
                reveal_strlit("Confirm action");
            }
            r
        },
    }
}

/// The question of a confirmation dialog; an update's dialog shows the
/// package and its two versions instead.
pub open spec fn confirmation_spec(t: Task) -> Seq<char> {
    match t {
        Task::InstallLts => "Install the official latest LTS, verify its architecture, and make it the nvm default?"@,
        Task::RestoreRegistry => "Install every registry package into the current default Node? Existing packages are not removed first."@,
        Task::UpdatePackage(c) => c.package.name@ + ": "@ + c.package.version@ + " -> "@ + c.latest_version@,
        _ => "Run this action?"@,
    }
}

/// The text of the confirmation dialog for a task.
pub fn confirmation_text(task: &Task) -> (r: String)
    ensures
        r@ == confirmation_spec(*task),
{
    match task {
        Task::InstallLts => "Install the official latest LTS, verify its architecture, and make it the nvm default?".to_owned(),
        Task::RestoreRegistry => "Install every registry package into the current default Node? Existing packages are not removed first.".to_owned(),
        Task::UpdatePackage(c) => {
            let parts = vec![c.package.name.as_str(), ": ", c.package.version.as_str(), " -> ", c.latest_version.as_str()];
            let r = concat(&parts);
            proof {
                reveal_with_fuel(concat_spec, 6);
                assert(parts@.map_values(|p: &str| p@) =~= seq![c.package.name@, ": "@, c.package.version@, " -> "@, c.latest_version@]);
            }
            r
        },
        _ => "Run this action?".to_owned(),
    }
}

/// Whether a view needs a scrollbar: its content is taller than the inside
/// of its border.
pub fn needs_scrollbar(content_length: u16, area_height: u16) -> (r: bool)
    ensures
        r == (content_length > (if area_height < 2 { 0 } else { area_height - 2 })),
{
    content_length > area_height.saturating_sub(2)
}

/// The rows of the update table: name, installed version, latest version.
pub fn update_rows(updates: &Vec<UpdateCandidate>) -> (r: Vec<(String, String, String)>)
    ensures
        row_views(r@) == crate::manager::candidate_views(updates@),
{
    let mut r: Vec<(String, String, String)> = Vec::new();
    let mut i: usize = 0;
    while i < updates.len()
        invariant
            i <= updates.len(),
            row_views(r@) == crate::manager::candidate_views(updates@.take(i as int)),
        decreases updates.len() - i,
    {
        let c = &updates[i];
        let ghost prev = r@;
        r.push((c.package.name.clone(), c.package.version.clone(), c.latest_version.clone()));
        proof {
            assert(updates@.take(i + 1) =~= updates@.take(i as int).push(*c));
            assert(crate::manager::candidate_views(updates@.take(i + 1)) =~= crate::manager::candidate_views(
                updates@.take(i as int),
            ).push(crate::manager::candidate_view(*c)));
            assert(row_views(r@) =~= row_views(prev).push(crate::manager::candidate_view(*c)));
            assert(row_views(r@) =~= crate::manager::candidate_views(updates@.take(i + 1)));
        }
        i = i + 1;
    }
    proof {
        assert(updates@.take(i as int) =~= updates@);
    }
    r
}

/// The activity log, newest first.
pub fn activity_lines(activity: &Vec<String>) -> (r: Vec<String>)
    ensures
        text_seq(r@) == text_seq(activity@).reverse(),
{
    let mut r: Vec<String> = Vec::new();
    let mut i: usize = activity.len();
    while i > 0
        invariant
            i <= activity.len(),
            text_seq(r@) == text_seq(activity@).skip(i as int).reverse(),
        decreases i,
    {
        i = i - 1;
        let ghost prev = r@;
        r.push(activity[i].clone());
        proof {
            let t = text_seq(activity@);
            assert(text_seq(r@) =~= text_seq(prev).push(t[i as int]));
            assert(t.skip(i as int).reverse() =~= t.skip(i + 1).reverse().push(t[i as int]));
            assert(text_seq(r@) =~= text_seq(activity@).skip(i as int).reverse());
        }
    }
    proof {
        assert(text_seq(activity@).skip(0) =~= text_seq(activity@));
    }
    r
}

/// The help text of `nvmman --help` for a version of the program.
pub open spec fn help_spec(version: Seq<char>) -> Seq<char> {
    "nvmman "@ + version + "\n\nInteractive nvm and global npm package manager.\n\nUSAGE:\n    nvmman\n    nvmman update\n\nCOMMANDS:\n    update  Check crates.io for a newer nvmman release\n\nSHORTCUTS:\n    r  Refresh state\n    l  Install latest native LTS\n    g  Sync package registry\n    a  Restore registry packages\n    u  Check global npm updates\n    1-5  Switch views\n    q  Quit\n\nThe interactive UI supports mouse selection and mouse-wheel scrolling."@
}

/// The help text for a version of the program.
pub fn help_text(version: &str) -> (r: String)
    ensures
        r@ == help_spec(version@),
{
    let mut r = "nvmman ".to_owned();
    r.append(version);
    r.append("\n\nInteractive nvm and global npm package manager.\n\nUSAGE:\n    nvmman\n    nvmman update\n\nCOMMANDS:\n    update  Check crates.io for a newer nvmman release\n\nSHORTCUTS:\n    r  Refresh state\n    l  Install latest native LTS\n    g  Sync package registry\n    a  Restore registry packages\n    u  Check global npm updates\n    1-5  Switch views\n    q  Quit\n\nThe interactive UI supports mouse selection and mouse-wheel scrolling.");
    r
}

} // verus!

//! Decisions taken while scanning an nvm directory: which directory entries
//! are Node.js versions or packages, and the order in which they are listed.

use vstd::prelude::*;
use crate::model::{Package, text_seq};
use crate::sorting::{insert_stable, stable_sort, lemma_insert_stable_at};
use crate::text::{chars_of, text_eq, text_less, text_lt};
use crate::version::{node_version_before, node_version_less};

verus! {

/// Node.js versions are ordered by `compare_node_versions`.
pub open spec fn node_order() -> spec_fn(Seq<char>, Seq<char>) -> bool {
    |a: Seq<char>, b: Seq<char>| node_version_before(a, b)
}

/// The directory names that name Node.js versions: those starting with `v`.
pub open spec fn version_names(names: Seq<Seq<char>>) -> Seq<Seq<char>>
    decreases names.len(),
{
    if names.len() == 0 {
        Seq::empty()
    } else {
        let rest = version_names(names.drop_last());
        let n = names.last();
        if n.len() > 0 && n[0] == 'v' {
            rest.push(n)
        } else {
            rest
        }
    }
}

fn starts_with_v(s: &str) -> (r: bool)
    ensures
        r == (s@.len() > 0 && s@[0] == 'v'),
{
    let c = chars_of(s);
    c.len() > 0 && c[0] == 'v'
}

fn insert_version(sorted: &mut Vec<String>, v: String)
    ensures
        text_seq(final(sorted)@) == insert_stable(text_seq(old(sorted)@), v@, node_order()),
{
    let ghost s = text_seq(sorted@);
    let ghost x = v@;
    let mut pos: usize = sorted.len();
    while pos > 0 && node_version_less(v.as_str(), sorted[pos - 1].as_str())
        invariant
            pos <= sorted.len(),
            s == text_seq(sorted@),
            x == v@,
            forall|i: int| pos <= i < s.len() ==> (node_order())(x, #[trigger] s[i]),
        decreases pos,
    {
        proof {
            assert(s[pos - 1] == sorted@[pos - 1]@);
        }
        pos = pos - 1;
    }
    proof {
        if pos > 0 {
            assert(s[pos - 1] == sorted@[pos - 1]@);
        }
        lemma_insert_stable_at(s, x, node_order(), pos as int);
    }
    sorted.insert(pos, v);
    proof {
        assert(text_seq(sorted@) =~= s.insert(pos as int, x));
    }
}

/// The Node.js versions among the entries of `versions/node`, in version
/// order (a stable sort by `compare_node_versions`).
pub fn select_node_versions(names: Vec<String>) -> (r: Vec<String>)
    ensures
        text_seq(r@) == stable_sort(version_names(text_seq(names@)), node_order()),
{
    let ghost all = text_seq(names@);
    let mut rest = names;
    let n = rest.len();
    let mut r: Vec<String> = Vec::new();
    let mut k: usize = 0;
    while rest.len() > 0
        invariant
            k + rest.len() == all.len(),
            all.len() == n,
            text_seq(rest@) == all.skip(k as int),
            text_seq(r@) == stable_sort(version_names(all.take(k as int)), node_order()),
        decreases rest.len(),
    {
        let ghost old_rest = rest@;
        let name = rest.remove(0);
        proof {
            assert(all.take(k + 1).drop_last() =~= all.take(k as int));
            assert(all.take(k + 1).last() == all.skip(k as int)[0]);
            assert(name@ == text_seq(old_rest)[0]);
            assert(rest@ =~= old_rest.drop_first());
            assert(text_seq(rest@) =~= text_seq(old_rest).drop_first());
            assert(all.skip(k as int).drop_first() =~= all.skip(k + 1));
        }
        let ghost vn = version_names(all.take(k as int));
        if starts_with_v(name.as_str()) {
            proof {
                assert(version_names(all.take(k + 1)) == vn.push(name@));
                assert(vn.push(name@).drop_last() =~= vn);
            }
            insert_version(&mut r, name);
        }
        k = k + 1;
    }
    proof {
        assert(all.take(k as int) =~= all);
    }
    r
}

/// The view of a package: its name and version.
pub open spec fn package_view(p: Package) -> (Seq<char>, Seq<char>) {
    (p.name@, p.version@)
}

pub open spec fn package_views(s: Seq<Package>) -> Seq<(Seq<char>, Seq<char>)> {
    s.map_values(|p: Package| package_view(p))
}

/// Packages are ordered by name, then by version text, as the derived
/// `Ord` of the name and version fields orders them.
pub open spec fn package_order() -> spec_fn((Seq<char>, Seq<char>), (Seq<char>, Seq<char>)) -> bool {
    |a: (Seq<char>, Seq<char>), b: (Seq<char>, Seq<char>)| text_lt(a.0, b.0) || (a.0 == b.0 && text_lt(a.1, b.1))
}

fn package_less(a: &Package, b: &Package) -> (r: bool)
    ensures
        r == (package_order())(package_view(*a), package_view(*b)),
{
    text_less(a.name.as_str(), b.name.as_str()) || (text_eq(a.name.as_str(), b.name.as_str())
        && text_less(a.version.as_str(), b.version.as_str()))
}

fn insert_package(sorted: &mut Vec<Package>, p: Package)
    ensures
        package_views(final(sorted)@) == insert_stable(package_views(old(sorted)@), package_view(p), package_order()),
{
    let ghost s = package_views(sorted@);
    let ghost x = package_view(p);
    let mut pos: usize = sorted.len();
    while pos > 0 && package_less(&p, &sorted[pos - 1])
        invariant
            pos <= sorted.len(),
            s == package_views(sorted@),
            x == package_view(p),
            forall|i: int| pos <= i < s.len() ==> (package_order())(x, #[trigger] s[i]),
        decreases pos,
    {
        proof {
            assert(s[pos - 1] == package_view(sorted@[pos - 1]));
        }
        pos = pos - 1;
    }
    proof {
        if pos > 0 {
            assert(s[pos - 1] == package_view(sorted@[pos - 1]));
        }
        lemma_insert_stable_at(s, x, package_order(), pos as int);
    }
    sorted.insert(pos, p);
    proof {
        assert(package_views(sorted@) =~= s.insert(pos as int, x));
    }
}

/// Sorts the global packages of one Node.js version by name and version.
pub fn sort_packages(packages: Vec<Package>) -> (r: Vec<Package>)
    ensures
        package_views(r@) == stable_sort(package_views(packages@), package_order()),
{
    let ghost all = package_views(packages@);
    let mut rest = packages;
    let n = rest.len();
    let mut r: Vec<Package> = Vec::new();
    let mut k: usize = 0;
    while rest.len() > 0
        invariant
            k + rest.len() == all.len(),
            all.len() == n,
            package_views(rest@) == all.skip(k as int),
            package_views(r@) == stable_sort(all.take(k as int), package_order()),
        decreases rest.len(),
    {
        let ghost old_rest = rest@;
        let p = rest.remove(0);
        proof {
            assert(all.take(k + 1).drop_last() =~= all.take(k as int));
            assert(all.take(k + 1).last() == all.skip(k as int)[0]);
            assert(package_view(p) == package_views(old_rest)[0]);
            assert(rest@ =~= old_rest.drop_first());
            assert(package_views(rest@) =~= package_views(old_rest).drop_first());
            assert(all.skip(k as int).drop_first() =~= all.skip(k + 1));
        }
        insert_package(&mut r, p);
        k = k + 1;
    }
    proof {
        assert(all.take(k as int) =~= all);
    }
    r
}

/// What an entry of `lib/node_modules` is to the package scan.
#[derive(Clone, Copy, Debug, PartialEq, Eq, Structural)]
pub enum ModuleEntry {
    /// Not a global package of the user (`npm`, `corepack`, or not a
    /// directory).
    Skipped,
    /// A scope (`@scope`): its subdirectories are packages.
    Scope,
    /// A package directory.
    Package,
}

/// How the package scan treats an entry of `lib/node_modules`.
pub open spec fn module_entry_spec(name: Seq<char>, is_dir: bool) -> ModuleEntry {
    if name == "npm"@ || name == "corepack"@ || !is_dir {
        ModuleEntry::Skipped
    } else if name.len() > 0 && name[0] == '@' {
        ModuleEntry::Scope
    } else {
        ModuleEntry::Package
    }
}

/// Classifies an entry of `lib/node_modules` by its name and whether it is
/// a directory.
pub fn module_entry(name: &str, is_dir: bool) -> (r: ModuleEntry)
    ensures
        r == module_entry_spec(name@, is_dir),
{
    if text_eq(name, "npm") || text_eq(name, "corepack") || !is_dir {
        ModuleEntry::Skipped
    } else {
        let c = chars_of(name);
        if c.len() > 0 && c[0] == '@' {
            ModuleEntry::Scope
        } else {
            ModuleEntry::Package
        }
    }
}

/// The packages whose manifests were found, in the order of the list:
/// `None` stands for an entry without a `package.json` file.
pub open spec fn found_packages(manifests: Seq<Option<Package>>) -> Seq<Package>
    decreases manifests.len(),
{
    if manifests.len() == 0 {
        Seq::empty()
    } else {
        let rest = found_packages(manifests.drop_last());
        match manifests.last() {
            Some(p) => rest.push(p),
            None => rest,
        }
    }
}

/// The global packages of one Node.js version, given whether its
/// `lib/node_modules` directory exists and the manifest read for each
/// package entry of it (`None` where the entry has no `package.json`): none
/// when the directory is missing, else the packages found, sorted by name
/// and version.
pub fn global_package_list(root_is_dir: bool, manifests: Vec<Option<Package>>) -> (r: Vec<Package>)
    ensures
        !root_is_dir ==> r@.len() == 0,
        root_is_dir ==> package_views(r@) == stable_sort(package_views(found_packages(manifests@)), package_order()),
{
    if !root_is_dir {
        return Vec::new();
    }
    let ghost all = manifests@;
    assert(all.len() == manifests.len());
    let mut rest = manifests;
    let mut found: Vec<Package> = Vec::new();
    let mut i: usize = 0;
    while rest.len() > 0
        invariant
            i + rest@.len() == all.len(),
            all.len() <= usize::MAX,
            rest@ == all.skip(i as int),
            found@ == found_packages(all.take(i as int)),
        decreases rest.len(),
    {
        proof {
            assert(all.take(i + 1).drop_last() =~= all.take(i as int));
            assert(all.take(i + 1).last() == rest@[0]);
        }
        let entry = rest.remove(0);
        match entry {
            Some(p) => found.push(p),
            None => {},
        }
        proof {
            assert(rest@ =~= all.skip(i + 1));
        }
        i = i + 1;
    }
    proof {
        assert(all.take(i as int) =~= all);
    }
    sort_packages(found)
}

} // verus!

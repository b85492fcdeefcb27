//! Consolidation of the global packages of every Node.js installation into
//! one registry: each package name once, each version of it once, and for
//! each version the Node.js versions that carry it, all in text order.

use vstd::prelude::*;
use crate::model::{NodeInstallation, PackageOccurrence, RegistryEntry, text_seq};
use crate::version::{
    compared_alike, law_package_version_order_reflexive, parses_as_semver, ranks_above, version_at_most,
    version_ranks_above,
};
use crate::text::{text_eq, text_less, text_lt, lemma_text_lt_trichotomy, lemma_text_lt_transitive, lemma_text_lt_irreflexive};

verus! {

/// Every element comes strictly before every later one.
pub open spec fn strictly_sorted(keys: Seq<Seq<char>>) -> bool {
    forall|i: int, j: int| 0 <= i < j < keys.len() ==> text_lt(keys[i], keys[j])
}

/// Whether a list of strings holds a text.
pub open spec fn has_text(s: Seq<String>, t: Seq<char>) -> bool {
    exists|i: int| 0 <= i < s.len() && #[trigger] s[i]@ == t
}

/// The version texts of a list of occurrences.
pub open spec fn occurrence_versions(o: Seq<PackageOccurrence>) -> Seq<Seq<char>> {
    o.map_values(|x: PackageOccurrence| x.version@)
}

/// The names of the registry's packages.
pub open spec fn package_names(p: Seq<(String, RegistryEntry)>) -> Seq<Seq<char>> {
    p.map_values(|x: (String, RegistryEntry)| x.0@)
}

/// Occurrences in version order, each version once, each carried by a
/// non-empty list of Node.js versions in order.
pub open spec fn occurrences_wf(o: Seq<PackageOccurrence>) -> bool {
    &&& strictly_sorted(occurrence_versions(o))
    &&& forall|i: int| 0 <= i < o.len() ==> {
        &&& (#[trigger] o[i]).node_versions@.len() > 0
        &&& strictly_sorted(text_seq(o[i].node_versions@))
    }
}

/// Packages in name order, each name once, each with well-formed,
/// non-empty occurrences.
pub open spec fn packages_wf(p: Seq<(String, RegistryEntry)>) -> bool {
    &&& strictly_sorted(package_names(p))
    &&& forall|i: int| 0 <= i < p.len() ==> {
        &&& (#[trigger] p[i]).1.occurrences@.len() > 0
        &&& occurrences_wf(p[i].1.occurrences@)
    }
}

/// Whether some occurrence records `version` on Node.js `node`.
pub open spec fn occurrences_have(o: Seq<PackageOccurrence>, version: Seq<char>, node: Seq<char>) -> bool {
    exists|i: int| 0 <= i < o.len() && (#[trigger] o[i]).version@ == version && has_text(o[i].node_versions@, node)
}

/// Whether the registry records package `name` at `version` on `node`.
pub open spec fn packages_have(p: Seq<(String, RegistryEntry)>, name: Seq<char>, version: Seq<char>, node: Seq<char>) -> bool {
    exists|i: int| 0 <= i < p.len() && (#[trigger] p[i]).0@ == name && occurrences_have(p[i].1.occurrences@, version, node)
}

/// Whether installation `i` carries package `j`, and it is `name` at
/// `version` on Node.js `node`.
pub open spec fn installed_at(insts: Seq<NodeInstallation>, i: int, j: int, name: Seq<char>, version: Seq<char>, node: Seq<char>) -> bool {
    &&& 0 <= i < insts.len()
    &&& 0 <= j < insts[i].packages@.len()
    &&& insts[i].packages@[j].name@ == name
    &&& insts[i].packages@[j].version@ == version
    &&& insts[i].version@ == node
}

/// Whether some installation carries package `name` at `version`, the
/// installation being Node.js `node`.
pub open spec fn installed(insts: Seq<NodeInstallation>, name: Seq<char>, version: Seq<char>, node: Seq<char>) -> bool {
    exists|i: int, j: int| #[trigger] installed_at(insts, i, j, name, version, node)
}

/// Whether an installation before `(bi, bj)` (installations before `bi`,
/// and the packages before `bj` of installation `bi`) carries the triple.
pub open spec fn installed_before(insts: Seq<NodeInstallation>, bi: int, bj: int, name: Seq<char>, version: Seq<char>, node: Seq<char>) -> bool {
    exists|i: int, j: int| #[trigger] installed_at(insts, i, j, name, version, node) && (i < bi || (i == bi && j < bj))
}

proof fn lemma_insert_keeps_sorted(keys: Seq<Seq<char>>, pos: int, t: Seq<char>)
    requires
        strictly_sorted(keys),
        0 <= pos <= keys.len(),
        forall|i: int| 0 <= i < pos ==> text_lt(keys[i], t),
        forall|i: int| pos <= i < keys.len() ==> text_lt(t, keys[i]),
    ensures
        strictly_sorted(keys.insert(pos, t)),
{
    let k2 = keys.insert(pos, t);
    assert forall|i: int, j: int| 0 <= i < j < k2.len() implies text_lt(k2[i], k2[j]) by {
        if j < pos {
        } else if j == pos {
        } else if i < pos {
            lemma_text_lt_transitive(keys[i], t, keys[j - 1]);
        } else if i == pos {
        } else {
        }
    }
}

/// After the first `pos` keys, which all come before `t`, and a key at
/// `pos` that is not before `t` and differs from it, every remaining key
/// comes after `t`.
proof fn lemma_after_position(keys: Seq<Seq<char>>, pos: int, t: Seq<char>)
    requires
        strictly_sorted(keys),
        0 <= pos <= keys.len(),
        pos < keys.len() ==> !text_lt(keys[pos], t) && keys[pos] != t,
    ensures
        forall|i: int| pos <= i < keys.len() ==> text_lt(t, keys[i]),
{
    if pos < keys.len() {
        lemma_text_lt_trichotomy(keys[pos], t);
        assert forall|i: int| pos <= i < keys.len() implies text_lt(t, keys[i]) by {
            if i > pos {
                lemma_text_lt_transitive(t, keys[pos], keys[i]);
            }
        }
    }
}

/// In a sorted list, the only element equal to a key is the one found where
/// the key belongs.
proof fn lemma_unique_position(keys: Seq<Seq<char>>, pos: int, t: Seq<char>, i: int)
    requires
        strictly_sorted(keys),
        0 <= pos <= keys.len(),
        forall|k: int| 0 <= k < pos ==> text_lt(keys[k], t),
        forall|k: int| pos < k < keys.len() ==> text_lt(t, keys[k]),
        0 <= i < keys.len(),
        keys[i] == t,
    ensures
        i == pos,
{
    if i < pos {
        lemma_text_lt_irreflexive(t);
    } else if i > pos {
        lemma_text_lt_irreflexive(t);
    }
}

/// Adds a text to a sorted list of texts, unless it is there already.
fn insert_text(nodes: &mut Vec<String>, node: String)
    requires
        strictly_sorted(text_seq(old(nodes)@)),
    ensures
        strictly_sorted(text_seq(final(nodes)@)),
        final(nodes)@.len() > 0,
        forall|t: Seq<char>| has_text(final(nodes)@, t) <==> (has_text(old(nodes)@, t) || t == node@),
{
    let ghost keys = text_seq(nodes@);
    let ghost nv = node@;
    let mut pos: usize = 0;
    while pos < nodes.len() && text_less(nodes[pos].as_str(), node.as_str())
        invariant
            pos <= nodes.len(),
            keys == text_seq(nodes@),
            nodes@ == old(nodes)@,
            nv == node@,
            forall|k: int| 0 <= k < pos ==> text_lt(keys[k], nv),
        decreases nodes.len() - pos,
    {
        proof {
            assert(keys[pos as int] == nodes@[pos as int]@);
        }
        pos = pos + 1;
    }
    if pos < nodes.len() && text_eq(nodes[pos].as_str(), node.as_str()) {
        proof {
            assert(nodes@[pos as int]@ == nv);
            assert forall|t: Seq<char>| has_text(nodes@, t) <==> (has_text(old(nodes)@, t) || t == nv) by {
                if t == nv {
                    assert(nodes@[pos as int]@ == t);
                }
            }
        }
        return;
    }
    proof {
        lemma_after_position(keys, pos as int, node@);
        lemma_insert_keeps_sorted(keys, pos as int, node@);
        assert(text_seq(nodes@.insert(pos as int, node)) =~= keys.insert(pos as int, node@));
    }
    let ghost before = nodes@;
    nodes.insert(pos, node.clone());
    proof {
        lemma_insert_has_text(before, pos as int, node);
    }
}

proof fn lemma_insert_has_text(before: Seq<String>, pos: int, x: String)
    requires
        0 <= pos <= before.len(),
    ensures
        forall|t: Seq<char>| has_text(before.insert(pos, x), t) <==> (has_text(before, t) || t == x@),
{
    let after = before.insert(pos, x);
    assert forall|t: Seq<char>| has_text(after, t) <==> (has_text(before, t) || t == x@) by {
        if has_text(after, t) {
            let i = choose|i: int| 0 <= i < after.len() && #[trigger] after[i]@ == t;
            if i < pos {
                assert(before[i]@ == t);
            } else if i > pos {
                assert(before[i - 1]@ == t);
            }
        }
        if has_text(before, t) {
            let i = choose|i: int| 0 <= i < before.len() && #[trigger] before[i]@ == t;
            if i < pos {
                assert(after[i]@ == t);
            } else {
                assert(after[i + 1]@ == t);
            }
        }
        if t == x@ {
            assert(after[pos]@ == t);
        }
    }
}

/// Records that a package `version` is carried by Node.js `node`.
#[verifier::spinoff_prover]
fn insert_occurrence(occ: &mut Vec<PackageOccurrence>, version: String, node: String)
    requires
        occurrences_wf(old(occ)@),
    ensures
        occurrences_wf(final(occ)@),
        final(occ)@.len() > 0,
        forall|v: Seq<char>, k: Seq<char>|
            occurrences_have(final(occ)@, v, k) <==> (occurrences_have(old(occ)@, v, k) || (v == version@ && k == node@)),
{
    let ghost keys = occurrence_versions(occ@);
    let ghost vv = version@;
    let ghost nv = node@;
    let ghost before = occ@;
    let mut pos: usize = 0;
    while pos < occ.len() && text_less(occ[pos].version.as_str(), version.as_str())
        invariant
            pos <= occ.len(),
            occ@ == before,
            vv == version@,
            keys == occurrence_versions(occ@),
            forall|k: int| 0 <= k < pos ==> text_lt(keys[k], vv),
        decreases occ.len() - pos,
    {
        proof {
            assert(keys[pos as int] == occ@[pos as int].version@);
        }
        pos = pos + 1;
    }
    if pos < occ.len() && text_eq(occ[pos].version.as_str(), version.as_str()) {
        let mut o = occ.remove(pos);
        let ghost old_nodes = o.node_versions@;
        insert_text(&mut o.node_versions, node);
        let ghost o_new = o;
        occ.insert(pos, o);
        proof {
            assert(occ@ =~= before.update(pos as int, o_new));
            assert(occurrence_versions(occ@) =~= keys);
            assert forall|v: Seq<char>, k: Seq<char>|
                occurrences_have(occ@, v, k) <==> (occurrences_have(before, v, k) || (v == vv && k == nv)) by {
                if occurrences_have(occ@, v, k) {
                    let i = choose|i: int| 0 <= i < occ@.len() && (#[trigger] occ@[i]).version@ == v && has_text(occ@[i].node_versions@, k);
                    if i != pos {
                        assert(before[i] == occ@[i]);
                    } else if has_text(old_nodes, k) {
                        assert(before[i].node_versions@ == old_nodes);
                    }
                }
                if occurrences_have(before, v, k) {
                    let i = choose|i: int| 0 <= i < before.len() && (#[trigger] before[i]).version@ == v && has_text(before[i].node_versions@, k);
                    if i != pos {
                        assert(before[i] == occ@[i]);
                    } else {
                        assert(has_text(occ@[i].node_versions@, k));
                    }
                }
                if v == vv && k == nv {
                    assert(has_text(occ@[pos as int].node_versions@, k));
                }
            }
        }
    } else {
        proof {
            lemma_after_position(keys, pos as int, vv);
            lemma_insert_keeps_sorted(keys, pos as int, vv);
        }
        let mut nodes: Vec<String> = Vec::new();
        nodes.push(node);
        let o = PackageOccurrence { version, node_versions: nodes };
        proof {
            assert(has_text(o.node_versions@, nv) ) by {
                assert(o.node_versions@[0]@ == nv);
            }
            assert forall|k: Seq<char>| has_text(o.node_versions@, k) implies k == nv by {
                let i = choose|i: int| 0 <= i < o.node_versions@.len() && #[trigger] o.node_versions@[i]@ == k;
            }
        }
        occ.insert(pos, o);
        proof {
            assert(occurrence_versions(occ@) =~= keys.insert(pos as int, vv));
            assert(occ@ =~= before.insert(pos as int, o));
            assert forall|i: int| 0 <= i < occ@.len() implies {
                &&& (#[trigger] occ@[i]).node_versions@.len() > 0
                &&& strictly_sorted(text_seq(occ@[i].node_versions@))
            } by {
                if i < pos {
                    assert(occ@[i] == before[i]);
                } else if i > pos {
                    assert(occ@[i] == before[i - 1]);
                }
            }
            assert forall|v: Seq<char>, k: Seq<char>|
                occurrences_have(occ@, v, k) <==> (occurrences_have(before, v, k) || (v == vv && k == nv)) by {
                if occurrences_have(occ@, v, k) {
                    let i = choose|i: int| 0 <= i < occ@.len() && (#[trigger] occ@[i]).version@ == v && has_text(occ@[i].node_versions@, k);
                    if i < pos {
                        assert(before[i] == occ@[i]);
                    } else if i > pos {
                        assert(before[i - 1] == occ@[i]);
                    }
                }
                if occurrences_have(before, v, k) {
                    let i = choose|i: int| 0 <= i < before.len() && (#[trigger] before[i]).version@ == v && has_text(before[i].node_versions@, k);
                    if i < pos {
                        assert(before[i] == occ@[i]);
                    } else {
                        assert(before[i] == occ@[i + 1]);
                    }
                }
                if v == vv && k == nv {
                    assert(occ@[pos as int] == o);
                }
            }
        }
    }
}

/// Records that package `name` at `version` is carried by Node.js `node`.
#[verifier::spinoff_prover]
fn insert_package(pkgs: &mut Vec<(String, RegistryEntry)>, name: String, version: String, node: String)
    requires
        packages_wf(old(pkgs)@),
    ensures
        packages_wf(final(pkgs)@),
        forall|n: Seq<char>, v: Seq<char>, k: Seq<char>|
            packages_have(final(pkgs)@, n, v, k) <==> (packages_have(old(pkgs)@, n, v, k) || (n == name@
                && v == version@ && k == node@)),
{
    let ghost keys = package_names(pkgs@);
    let ghost nm = name@;
    let ghost vv = version@;
    let ghost nv = node@;
    let ghost before = pkgs@;
    let mut pos: usize = 0;
    while pos < pkgs.len() && text_less(pkgs[pos].0.as_str(), name.as_str())
        invariant
            pos <= pkgs.len(),
            pkgs@ == before,
            nm == name@,
            keys == package_names(pkgs@),
            forall|k: int| 0 <= k < pos ==> text_lt(keys[k], nm),
        decreases pkgs.len() - pos,
    {
        proof {
            assert(keys[pos as int] == pkgs@[pos as int].0@);
        }
        pos = pos + 1;
    }
    if pos < pkgs.len() && text_eq(pkgs[pos].0.as_str(), name.as_str()) {
        let (pname, mut entry) = pkgs.remove(pos);
        let ghost old_occ = entry.occurrences@;
        insert_occurrence(&mut entry.occurrences, version, node);
        let ghost e_new = (pname, entry);
        pkgs.insert(pos, (pname, entry));
        proof {
            assert(pkgs@ =~= before.update(pos as int, e_new));
            assert(package_names(pkgs@) =~= keys);
            assert forall|n: Seq<char>, v: Seq<char>, k: Seq<char>|
                packages_have(pkgs@, n, v, k) <==> (packages_have(before, n, v, k) || (n == nm && v == vv && k == nv)) by {
                if packages_have(pkgs@, n, v, k) {
                    let i = choose|i: int| 0 <= i < pkgs@.len() && (#[trigger] pkgs@[i]).0@ == n && occurrences_have(pkgs@[i].1.occurrences@, v, k);
                    if i != pos {
                        assert(before[i] == pkgs@[i]);
                    } else if occurrences_have(old_occ, v, k) {
                        assert(before[i].1.occurrences@ == old_occ);
                    }
                }
                if packages_have(before, n, v, k) {
                    let i = choose|i: int| 0 <= i < before.len() && (#[trigger] before[i]).0@ == n && occurrences_have(before[i].1.occurrences@, v, k);
                    if i != pos {
                        assert(before[i] == pkgs@[i]);
                    } else {
                        assert(occurrences_have(pkgs@[i].1.occurrences@, v, k));
                    }
                }
                if n == nm && v == vv && k == nv {
                    assert(occurrences_have(pkgs@[pos as int].1.occurrences@, v, k));
                }
            }
        }
    } else {
        proof {
            lemma_after_position(keys, pos as int, nm);
            lemma_insert_keeps_sorted(keys, pos as int, nm);
        }
        let mut occurrences: Vec<PackageOccurrence> = Vec::new();
        proof {
            assert(occurrences@ =~= Seq::<PackageOccurrence>::empty());
        }
        let selected = version.clone();
        insert_occurrence(&mut occurrences, version, node);
        let e = (name, RegistryEntry { selected_version: selected, occurrences });
        proof {
            assert forall|v: Seq<char>, k: Seq<char>| occurrences_have(e.1.occurrences@, v, k) implies v == vv && k == nv by {
                assert(!occurrences_have(Seq::<PackageOccurrence>::empty(), v, k));
            }
        }
        pkgs.insert(pos, e);
        proof {
            assert(package_names(pkgs@) =~= keys.insert(pos as int, nm));
            assert(pkgs@ =~= before.insert(pos as int, e));
            assert forall|i: int| 0 <= i < pkgs@.len() implies {
                &&& (#[trigger] pkgs@[i]).1.occurrences@.len() > 0
                &&& occurrences_wf(pkgs@[i].1.occurrences@)
            } by {
                if i < pos {
                    assert(pkgs@[i] == before[i]);
                } else if i > pos {
                    assert(pkgs@[i] == before[i - 1]);
                }
            }
            assert forall|n: Seq<char>, v: Seq<char>, k: Seq<char>|
                packages_have(pkgs@, n, v, k) <==> (packages_have(before, n, v, k) || (n == nm && v == vv && k == nv)) by {
                if packages_have(pkgs@, n, v, k) {
                    let i = choose|i: int| 0 <= i < pkgs@.len() && (#[trigger] pkgs@[i]).0@ == n && occurrences_have(pkgs@[i].1.occurrences@, v, k);
                    if i < pos {
                        assert(before[i] == pkgs@[i]);
                    } else if i > pos {
                        assert(before[i - 1] == pkgs@[i]);
                    }
                }
                if packages_have(before, n, v, k) {
                    let i = choose|i: int| 0 <= i < before.len() && (#[trigger] before[i]).0@ == n && occurrences_have(before[i].1.occurrences@, v, k);
                    if i < pos {
                        assert(before[i] == pkgs@[i]);
                    } else {
                        assert(before[i] == pkgs@[i + 1]);
                    }
                }
                if n == nm && v == vv && k == nv {
                    assert(pkgs@[pos as int] == e);
                }
            }
        }
    }
}

/// The version a registry entry restores: the highest by
/// `package_version_order`, and of equally high versions the last in text
/// order, as `Iterator::max_by` picks it.
pub open spec fn max_version(vs: Seq<Seq<char>>) -> Seq<char>
    decreases vs.len(),
{
    if vs.len() == 0 {
        Seq::empty()
    } else if vs.len() == 1 {
        vs[0]
    } else {
        let best = max_version(vs.drop_last());
        if version_ranks_above(best, vs.last()) {
            best
        } else {
            vs.last()
        }
    }
}

/// Whether the versions of a list are compared alike throughout: all by
/// `semver`, or all by their text.
pub open spec fn uniformly_parsed(vs: Seq<Seq<char>>) -> bool {
    ||| forall|j: int| 0 <= j < vs.len() ==> parses_as_semver(#[trigger] vs[j])
    ||| forall|j: int| 0 <= j < vs.len() ==> !parses_as_semver(#[trigger] vs[j])
}

/// Whether `v` ranks at least as high as every version of `vs`, where the
/// versions of `vs` are compared alike.  (Where some parse as `semver` and
/// others do not, the order of package versions is not transitive, and the
/// version `max_by` keeps need not rank highest.)
pub open spec fn ranks_highest(vs: Seq<Seq<char>>, v: Seq<char>) -> bool {
    uniformly_parsed(vs) ==> forall|j: int| 0 <= j < vs.len() ==> version_at_most(#[trigger] vs[j], v)
}

/// Every version ranks at most itself.
proof fn lemma_at_most_itself(v: Seq<char>)
    ensures
        version_at_most(v, v),
{
    law_package_version_order_reflexive(v);
}

/// The version to restore of a package with these occurrences.
fn select_version(occ: &Vec<PackageOccurrence>) -> (r: String)
    requires
        occ.len() > 0,
    ensures
        r@ == max_version(occurrence_versions(occ@)),
        ranks_highest(occurrence_versions(occ@), r@),
{
    let ghost vs = occurrence_versions(occ@);
    let mut best = occ[0].version.clone();
    let ghost mut best_index: int = 0;
    proof {
        assert(vs.take(1) =~= seq![vs[0]]);
        lemma_at_most_itself(vs[0]);
    }
    let mut i: usize = 1;
    while i < occ.len()
        invariant
            1 <= i <= occ.len(),
            vs == occurrence_versions(occ@),
            best@ == max_version(vs.take(i as int)),
            0 <= best_index < i,
            vs[best_index] == best@,
            uniformly_parsed(vs) ==> forall|j: int| 0 <= j < i ==> version_at_most(#[trigger] vs[j], best@),
        decreases occ.len() - i,
    {
        proof {
            assert(vs.take(i + 1).drop_last() =~= vs.take(i as int));
            assert(vs.take(i + 1).last() == occ@[i as int].version@);
        }
        let ghost previous = best@;
        let above = ranks_above(best.as_str(), occ[i].version.as_str());
        if !above {
            best = occ[i].version.clone();
            proof {
                best_index = i as int;
                lemma_at_most_itself(vs[i as int]);
                if uniformly_parsed(vs) {
                    assert forall|j: int| 0 <= j < i + 1 implies version_at_most(#[trigger] vs[j], best@) by {
                        if j < i {
                            assert(parses_as_semver(vs[j]) == parses_as_semver(vs[i as int]));
                            assert(compared_alike(vs[j], previous, vs[i as int]));
                        }
                    }
                }
            }
        }
        i = i + 1;
    }
    proof {
        assert(vs.take(occ.len() as int) =~= vs);
    }
    best
}

/// The registry's packages record exactly what the installations carry:
/// well formed, each triple (name, version, Node.js version) recorded iff
/// some installation carries it, and each entry restoring its highest
/// version, which ranks at least as high as each of its versions where they
/// are compared alike.
pub open spec fn consolidates(insts: Seq<NodeInstallation>, p: Seq<(String, RegistryEntry)>) -> bool {
    &&& packages_wf(p)
    &&& forall|n: Seq<char>, v: Seq<char>, k: Seq<char>| packages_have(p, n, v, k) <==> installed(insts, n, v, k)
    &&& forall|i: int| 0 <= i < p.len() ==> (#[trigger] p[i]).1.selected_version@ == max_version(
        occurrence_versions(p[i].1.occurrences@),
    )
    &&& forall|i: int| 0 <= i < p.len() ==> ranks_highest(
        occurrence_versions((#[trigger] p[i]).1.occurrences@),
        p[i].1.selected_version@,
    )
}

proof fn lemma_same_records(a: Seq<(String, RegistryEntry)>, b: Seq<(String, RegistryEntry)>)
    requires
        a.len() == b.len(),
        forall|k: int| 0 <= k < a.len() ==> (#[trigger] a[k]).0 == b[k].0 && a[k].1.occurrences == b[k].1.occurrences,
    ensures
        packages_wf(a) ==> packages_wf(b),
        forall|n: Seq<char>, v: Seq<char>, k: Seq<char>| packages_have(a, n, v, k) <==> packages_have(b, n, v, k),
{
    assert(package_names(a) =~= package_names(b));
    assert forall|i: int| 0 <= i < b.len() implies (#[trigger] b[i]).1.occurrences == a[i].1.occurrences by {}
    assert forall|n: Seq<char>, v: Seq<char>, k: Seq<char>| packages_have(a, n, v, k) <==> packages_have(b, n, v, k) by {
        if packages_have(a, n, v, k) {
            let i = choose|i: int| 0 <= i < a.len() && (#[trigger] a[i]).0@ == n && occurrences_have(a[i].1.occurrences@, v, k);
            assert(b[i].0@ == n);
        }
        if packages_have(b, n, v, k) {
            let i = choose|i: int| 0 <= i < b.len() && (#[trigger] b[i]).0@ == n && occurrences_have(b[i].1.occurrences@, v, k);
            assert(a[i].0@ == n);
        }
    }
}

/// Consolidates the global packages of every installation.
pub fn consolidate(insts: &Vec<NodeInstallation>) -> (r: Vec<(String, RegistryEntry)>)
    ensures
        consolidates(insts@, r@),
{
    let mut pkgs: Vec<(String, RegistryEntry)> = Vec::new();
    let mut i: usize = 0;
    while i < insts.len()
        invariant
            i <= insts.len(),
            packages_wf(pkgs@),
            forall|n: Seq<char>, v: Seq<char>, k: Seq<char>|
                packages_have(pkgs@, n, v, k) <==> installed_before(insts@, i as int, 0, n, v, k),
        decreases insts.len() - i,
    {
        let inst = &insts[i];
        let mut j: usize = 0;
        while j < inst.packages.len()
            invariant
                i < insts.len(),
                inst == insts@[i as int],
                j <= inst.packages.len(),
                packages_wf(pkgs@),
                forall|n: Seq<char>, v: Seq<char>, k: Seq<char>|
                    packages_have(pkgs@, n, v, k) <==> installed_before(insts@, i as int, j as int, n, v, k),
            decreases inst.packages.len() - j,
        {
            let package = &inst.packages[j];
            let ghost before = pkgs@;
            insert_package(&mut pkgs, package.name.clone(), package.version.clone(), inst.version.clone());
            proof {
                assert forall|n: Seq<char>, v: Seq<char>, k: Seq<char>|
                    packages_have(pkgs@, n, v, k) <==> installed_before(insts@, i as int, j + 1, n, v, k) by {
                    if installed_before(insts@, i as int, j + 1, n, v, k) {
                        let (a, b) = choose|a: int, b: int| #[trigger] installed_at(insts@, a, b, n, v, k) && (a < i || (a == i && b < j + 1));
                        if !(a == i && b == j) {
                            assert(installed_before(insts@, i as int, j as int, n, v, k));
                        }
                    }
                    if packages_have(before, n, v, k) {
                        assert(installed_before(insts@, i as int, j as int, n, v, k));
                        let (a, b) = choose|a: int, b: int| #[trigger] installed_at(insts@, a, b, n, v, k) && (a < i || (a == i && b < j));
                        assert(installed_at(insts@, a, b, n, v, k) && (a < i || (a == i && b < j + 1)));
                    }
                    if n == package.name@ && v == package.version@ && k == inst.version@ {
                        assert(installed_at(insts@, i as int, j as int, n, v, k));
                    }
                }
            }
            j = j + 1;
        }
        proof {
            assert forall|n: Seq<char>, v: Seq<char>, k: Seq<char>|
                installed_before(insts@, i as int, j as int, n, v, k) <==> installed_before(insts@, i + 1, 0, n, v, k) by {
                if installed_before(insts@, i + 1, 0, n, v, k) {
                    let (a, b) = choose|a: int, b: int| #[trigger] installed_at(insts@, a, b, n, v, k) && (a < i + 1 || (a == i + 1 && b < 0));
                    assert(installed_at(insts@, a, b, n, v, k) && (a < i || (a == i && b < j)));
                }
            }
        }
        i = i + 1;
    }
    proof {
        assert forall|n: Seq<char>, v: Seq<char>, k: Seq<char>|
            installed_before(insts@, i as int, 0, n, v, k) <==> installed(insts@, n, v, k) by {
            if installed(insts@, n, v, k) {
                let (a, b) = choose|a: int, b: int| #[trigger] installed_at(insts@, a, b, n, v, k);
                assert(installed_at(insts@, a, b, n, v, k) && (a < i || (a == i && b < 0)));
            }
        }
    }
    let ghost unselected = pkgs@;
    let mut m: usize = 0;
    while m < pkgs.len()
        invariant
            m <= pkgs.len(),
            pkgs@.len() == unselected.len(),
            forall|k: int| 0 <= k < pkgs@.len() ==> (#[trigger] pkgs@[k]).0 == unselected[k].0
                && pkgs@[k].1.occurrences == unselected[k].1.occurrences,
            forall|k: int| 0 <= k < m ==> (#[trigger] pkgs@[k]).1.selected_version@ == max_version(
                occurrence_versions(pkgs@[k].1.occurrences@),
            ),
            forall|k: int| 0 <= k < m ==> ranks_highest(
                occurrence_versions((#[trigger] pkgs@[k]).1.occurrences@),
                pkgs@[k].1.selected_version@,
            ),
            packages_wf(unselected),
        decreases pkgs.len() - m,
    {
        let (name, entry) = pkgs.remove(m);
        assert(entry.occurrences@.len() > 0);
        let selected = select_version(&entry.occurrences);
        pkgs.insert(m, (name, RegistryEntry { selected_version: selected, occurrences: entry.occurrences }));
        m = m + 1;
    }
    proof {
        lemma_same_records(unselected, pkgs@);
    }
    pkgs
}

proof fn lemma_sorted_unique(keys: Seq<Seq<char>>, i: int, j: int)
    requires
        strictly_sorted(keys),
        0 <= i < keys.len(),
        0 <= j < keys.len(),
        keys[i] == keys[j],
    ensures
        i == j,
{
    lemma_text_lt_irreflexive(keys[i]);
}

/// Two strictly sorted sequences with the same elements are equal.
pub proof fn lemma_sorted_same_elements(a: Seq<Seq<char>>, b: Seq<Seq<char>>)
    requires
        strictly_sorted(a),
        strictly_sorted(b),
        forall|x: Seq<char>| a.contains(x) <==> b.contains(x),
    ensures
        a == b,
    decreases a.len() + b.len(),
{
    if a.len() == 0 {
        if b.len() > 0 {
            assert(b.contains(b[0]));
        }
        assert(a =~= b);
    } else if b.len() == 0 {
        assert(a.contains(a[0]));
    } else {
        assert(a.contains(a[0]));
        assert(b.contains(b[0]));
        let ja = choose|j: int| 0 <= j < b.len() && b[j] == a[0];
        let jb = choose|j: int| 0 <= j < a.len() && a[j] == b[0];
        lemma_text_lt_trichotomy(a[0], b[0]);
        if a[0] != b[0] {
            if text_lt(a[0], b[0]) {
                assert(ja > 0);
                lemma_text_lt_trichotomy(b[0], b[ja]);
            } else {
                assert(jb > 0);
                lemma_text_lt_trichotomy(a[0], a[jb]);
            }
        }
        let a1 = a.drop_first();
        let b1 = b.drop_first();
        assert forall|x: Seq<char>| a1.contains(x) <==> b1.contains(x) by {
            if a1.contains(x) {
                let i = choose|i: int| 0 <= i < a1.len() && a1[i] == x;
                assert(a.contains(x) && a[i + 1] == x);
                lemma_text_lt_irreflexive(x);
                assert(x != a[0]);
                let j = choose|j: int| 0 <= j < b.len() && b[j] == x;
                assert(j != 0);
                assert(b1[j - 1] == x);
            }
            if b1.contains(x) {
                let i = choose|i: int| 0 <= i < b1.len() && b1[i] == x;
                assert(b.contains(x) && b[i + 1] == x);
                lemma_text_lt_irreflexive(x);
                assert(x != b[0]);
                let j = choose|j: int| 0 <= j < a.len() && a[j] == x;
                assert(j != 0);
                assert(a1[j - 1] == x);
            }
        }
        lemma_sorted_same_elements(a1, b1);
        assert(a =~= seq![a[0]] + a1);
        assert(b =~= seq![b[0]] + b1);
    }
}

/// Two registries that agree on everything the registry view shows: the
/// package names, for each package its versions, the Node.js versions of
/// each, and the selected version.
pub open spec fn same_registry(p: Seq<(String, RegistryEntry)>, q: Seq<(String, RegistryEntry)>) -> bool {
    &&& package_names(p) == package_names(q)
    &&& forall|i: int| 0 <= i < p.len() ==> {
        &&& occurrence_versions((#[trigger] p[i]).1.occurrences@) == occurrence_versions(q[i].1.occurrences@)
        &&& p[i].1.selected_version@ == q[i].1.selected_version@
        &&& forall|j: int| 0 <= j < p[i].1.occurrences@.len() ==> text_seq(
            (#[trigger] p[i].1.occurrences@[j]).node_versions@,
        ) == text_seq(q[i].1.occurrences@[j].node_versions@)
    }
}

proof fn lemma_texts_determined(a: Seq<String>, b: Seq<String>)
    requires
        strictly_sorted(text_seq(a)),
        strictly_sorted(text_seq(b)),
        forall|k: Seq<char>| has_text(a, k) <==> has_text(b, k),
    ensures
        text_seq(a) == text_seq(b),
{
    assert forall|x: Seq<char>| text_seq(a).contains(x) <==> text_seq(b).contains(x) by {
        if text_seq(a).contains(x) {
            let i = choose|i: int| 0 <= i < text_seq(a).len() && text_seq(a)[i] == x;
            assert(a[i]@ == x);
            assert(has_text(b, x));
            let j = choose|j: int| 0 <= j < b.len() && #[trigger] b[j]@ == x;
            assert(text_seq(b)[j] == x);
        }
        if text_seq(b).contains(x) {
            let i = choose|i: int| 0 <= i < text_seq(b).len() && text_seq(b)[i] == x;
            assert(b[i]@ == x);
            assert(has_text(a, x));
            let j = choose|j: int| 0 <= j < a.len() && #[trigger] a[j]@ == x;
            assert(text_seq(a)[j] == x);
        }
    }
    lemma_sorted_same_elements(text_seq(a), text_seq(b));
}

proof fn lemma_occurrences_determined(a: Seq<PackageOccurrence>, b: Seq<PackageOccurrence>)
    requires
        occurrences_wf(a),
        occurrences_wf(b),
        forall|v: Seq<char>, k: Seq<char>| occurrences_have(a, v, k) <==> occurrences_have(b, v, k),
    ensures
        occurrence_versions(a) == occurrence_versions(b),
        forall|j: int| 0 <= j < a.len() ==> text_seq((#[trigger] a[j]).node_versions@) == text_seq(b[j].node_versions@),
{
    let va = occurrence_versions(a);
    let vb = occurrence_versions(b);
    assert forall|x: Seq<char>| va.contains(x) <==> vb.contains(x) by {
        if va.contains(x) {
            let i = choose|i: int| 0 <= i < va.len() && va[i] == x;
            let k = a[i].node_versions@[0]@;
            assert(has_text(a[i].node_versions@, k));
            assert(occurrences_have(a, x, k));
            let j = choose|j: int| 0 <= j < b.len() && (#[trigger] b[j]).version@ == x && has_text(b[j].node_versions@, k);
            assert(vb[j] == x);
        }
        if vb.contains(x) {
            let i = choose|i: int| 0 <= i < vb.len() && vb[i] == x;
            let k = b[i].node_versions@[0]@;
            assert(has_text(b[i].node_versions@, k));
            assert(occurrences_have(b, x, k));
            let j = choose|j: int| 0 <= j < a.len() && (#[trigger] a[j]).version@ == x && has_text(a[j].node_versions@, k);
            assert(va[j] == x);
        }
    }
    lemma_sorted_same_elements(va, vb);
    assert forall|j: int| 0 <= j < a.len() implies text_seq((#[trigger] a[j]).node_versions@) == text_seq(b[j].node_versions@) by {
        assert(va[j] == vb[j]);
        let v = a[j].version@;
        assert forall|k: Seq<char>| has_text(a[j].node_versions@, k) <==> has_text(b[j].node_versions@, k) by {
            if has_text(a[j].node_versions@, k) {
                assert(occurrences_have(a, v, k));
                let m = choose|m: int| 0 <= m < b.len() && (#[trigger] b[m]).version@ == v && has_text(b[m].node_versions@, k);
                assert(vb[m] == vb[j]);
                lemma_sorted_unique(vb, m, j);
            }
            if has_text(b[j].node_versions@, k) {
                assert(occurrences_have(b, v, k));
                let m = choose|m: int| 0 <= m < a.len() && (#[trigger] a[m]).version@ == v && has_text(a[m].node_versions@, k);
                assert(va[m] == va[j]);
                lemma_sorted_unique(va, m, j);
            }
        }
        lemma_texts_determined(a[j].node_versions@, b[j].node_versions@);
    }
}

/// The registry is a function of what the installations carry: two
/// registries consolidated from installations that carry the same packages
/// (the same list in another order, say, or with an installation listed
/// twice) record the same packages, versions, Node.js versions and
/// selected versions, in the same order.
pub proof fn law_registry_determined_by_installations(
    insts1: Seq<NodeInstallation>,
    insts2: Seq<NodeInstallation>,
    p: Seq<(String, RegistryEntry)>,
    q: Seq<(String, RegistryEntry)>,
)
    requires
        consolidates(insts1, p),
        consolidates(insts2, q),
        forall|n: Seq<char>, v: Seq<char>, k: Seq<char>| installed(insts1, n, v, k) <==> installed(insts2, n, v, k),
    ensures
        same_registry(p, q),
{
    let np = package_names(p);
    let nq = package_names(q);
    assert forall|x: Seq<char>| np.contains(x) <==> nq.contains(x) by {
        if np.contains(x) {
            let i = choose|i: int| 0 <= i < np.len() && np[i] == x;
            let o = p[i].1.occurrences@;
            let v = o[0].version@;
            let k = o[0].node_versions@[0]@;
            assert(has_text(o[0].node_versions@, k));
            assert(occurrences_have(o, v, k));
            assert(packages_have(p, x, v, k));
            assert(packages_have(q, x, v, k));
            let j = choose|j: int| 0 <= j < q.len() && (#[trigger] q[j]).0@ == x && occurrences_have(q[j].1.occurrences@, v, k);
            assert(nq[j] == x);
        }
        if nq.contains(x) {
            let i = choose|i: int| 0 <= i < nq.len() && nq[i] == x;
            let o = q[i].1.occurrences@;
            let v = o[0].version@;
            let k = o[0].node_versions@[0]@;
            assert(has_text(o[0].node_versions@, k));
            assert(occurrences_have(o, v, k));
            assert(packages_have(q, x, v, k));
            assert(packages_have(p, x, v, k));
            let j = choose|j: int| 0 <= j < p.len() && (#[trigger] p[j]).0@ == x && occurrences_have(p[j].1.occurrences@, v, k);
            assert(np[j] == x);
        }
    }
    lemma_sorted_same_elements(np, nq);
    assert forall|i: int| 0 <= i < p.len() implies {
        &&& occurrence_versions((#[trigger] p[i]).1.occurrences@) == occurrence_versions(q[i].1.occurrences@)
        &&& p[i].1.selected_version@ == q[i].1.selected_version@
        &&& forall|j: int| 0 <= j < p[i].1.occurrences@.len() ==> text_seq(
            (#[trigger] p[i].1.occurrences@[j]).node_versions@,
        ) == text_seq(q[i].1.occurrences@[j].node_versions@)
    } by {
        assert(np[i] == nq[i]);
        let n = p[i].0@;
        let a = p[i].1.occurrences@;
        let b = q[i].1.occurrences@;
        assert forall|v: Seq<char>, k: Seq<char>| occurrences_have(a, v, k) <==> occurrences_have(b, v, k) by {
            if occurrences_have(a, v, k) {
                assert(packages_have(p, n, v, k));
                assert(packages_have(q, n, v, k));
                let m = choose|m: int| 0 <= m < q.len() && (#[trigger] q[m]).0@ == n && occurrences_have(q[m].1.occurrences@, v, k);
                assert(nq[m] == nq[i]);
                lemma_sorted_unique(nq, m, i);
            }
            if occurrences_have(b, v, k) {
                assert(packages_have(q, n, v, k));
                assert(packages_have(p, n, v, k));
                let m = choose|m: int| 0 <= m < p.len() && (#[trigger] p[m]).0@ == n && occurrences_have(p[m].1.occurrences@, v, k);
                assert(np[m] == np[i]);
                lemma_sorted_unique(np, m, i);
            }
        }
        lemma_occurrences_determined(a, b);
    }
}

proof fn lemma_max_version_is_one_of(vs: Seq<Seq<char>>)
    requires
        vs.len() > 0,
    ensures
        vs.contains(max_version(vs)),
    decreases vs.len(),
{
    if vs.len() == 1 {
        assert(vs[0] == max_version(vs));
    } else {
        lemma_max_version_is_one_of(vs.drop_last());
        let best = max_version(vs.drop_last());
        if version_ranks_above(best, vs.last()) {
            let j = choose|j: int| 0 <= j < vs.drop_last().len() && vs.drop_last()[j] == best;
            assert(vs[j] == best);
        } else {
            assert(vs[vs.len() - 1] == vs.last());
        }
    }
}

/// The version the registry restores of a package is one that some
/// installation actually carries.
pub proof fn law_selected_version_is_installed(insts: Seq<NodeInstallation>, p: Seq<(String, RegistryEntry)>, i: int)
    requires
        consolidates(insts, p),
        0 <= i < p.len(),
    ensures
        exists|k: Seq<char>| installed(insts, p[i].0@, p[i].1.selected_version@, k),
{
    let o = p[i].1.occurrences@;
    let vs = occurrence_versions(o);
    lemma_max_version_is_one_of(vs);
    let j = choose|j: int| 0 <= j < vs.len() && vs[j] == max_version(vs);
    let k = o[j].node_versions@[0]@;
    assert(has_text(o[j].node_versions@, k));
    assert(occurrences_have(o, o[j].version@, k));
    assert(packages_have(p, p[i].0@, p[i].1.selected_version@, k));
}

/// The version the registry restores of a package ranks at least as high
/// as every version of it that some installation carries, when those
/// versions are compared alike (all by `semver`, or all by their text).
pub proof fn law_selected_version_ranks_highest(
    insts: Seq<NodeInstallation>,
    p: Seq<(String, RegistryEntry)>,
    i: int,
    version: Seq<char>,
    node: Seq<char>,
)
    requires
        consolidates(insts, p),
        0 <= i < p.len(),
        uniformly_parsed(occurrence_versions(p[i].1.occurrences@)),
        installed(insts, p[i].0@, version, node),
    ensures
        version_at_most(version, p[i].1.selected_version@),
{
    assert(packages_have(p, p[i].0@, version, node));
    let a = choose|a: int| 0 <= a < p.len() && (#[trigger] p[a]).0@ == p[i].0@ && occurrences_have(
        p[a].1.occurrences@,
        version,
        node,
    );
    assert(a == i) by {
        assert(package_names(p)[a] == package_names(p)[i]);
        lemma_sorted_unique(package_names(p), a, i);
    }
    let o = p[i].1.occurrences@;
    let b = choose|b: int| 0 <= b < o.len() && (#[trigger] o[b]).version@ == version && has_text(o[b].node_versions@, node);
    assert(occurrence_versions(o)[b] == version);
    assert(ranks_highest(occurrence_versions(o), p[i].1.selected_version@));
}

} // verus!

//! Semantic versions, parsed and ordered by the `semver` crate, and the
//! ordering nvmman uses for package and Node.js version strings.

use vstd::prelude::*;
use std::cmp::Ordering;
use crate::text::{
    compare_text, decimal, decimal_text, law_text_order_antisymmetric, lemma_text_order_at_most_transitive,
    strip_leading_v, text_order, trim_start_v,
};

verus! {

#[verifier::external_type_specification]
#[verifier::external_body]
pub struct ExSemverVersion(semver::Version);

/// What `semver::Version::parse` makes of a text: `None` when it refuses
/// the text, else the version's major, minor and patch numbers and the
/// texts of its pre-release and build metadata.
pub uninterp spec fn semver_parse(text: Seq<char>) -> Option<(u64, u64, u64, Seq<char>, Seq<char>)>;

/// `Ord::cmp` of `semver::Prerelease` on two non-empty pre-release texts.
pub uninterp spec fn prerelease_order(a: Seq<char>, b: Seq<char>) -> Ordering;

/// `Ord::cmp` of `semver::BuildMetadata` on two build metadata texts.
pub uninterp spec fn build_metadata_order(a: Seq<char>, b: Seq<char>) -> Ordering;

/// A version that `semver` accepted.  The numbers and texts are the parsed
/// version's own; only `parse` builds one.
pub struct SemVer {
    version: semver::Version,
    major: u64,
    minor: u64,
    patch: u64,
    pre: String,
    build: String,
}

impl View for SemVer {
    type V = (u64, u64, u64, Seq<char>, Seq<char>);

    closed spec fn view(&self) -> (u64, u64, u64, Seq<char>, Seq<char>) {
        (self.major, self.minor, self.patch, self.pre@, self.build@)
    }
}

/// The order with its two sides swapped.
pub open spec fn reversed(o: Ordering) -> Ordering {
    match o {
        Ordering::Less => Ordering::Greater,
        Ordering::Equal => Ordering::Equal,
        Ordering::Greater => Ordering::Less,
    }
}

/// The order of two numbers.
pub open spec fn number_order(a: u64, b: u64) -> Ordering {
    if a < b {
        Ordering::Less
    } else if a == b {
        Ordering::Equal
    } else {
        Ordering::Greater
    }
}

/// The order of two pre-release texts: equal texts are equal, a release
/// (empty pre-release) ranks above any pre-release, and two different
/// pre-releases are ordered by `semver::Prerelease`.
pub open spec fn pre_order(a: Seq<char>, b: Seq<char>) -> Ordering {
    if a == b {
        Ordering::Equal
    } else if a.len() == 0 {
        Ordering::Greater
    } else if b.len() == 0 {
        Ordering::Less
    } else {
        prerelease_order(a, b)
    }
}

/// The order of two build metadata texts: equal texts are equal, others are
/// ordered by `semver::BuildMetadata`.
pub open spec fn build_order(a: Seq<char>, b: Seq<char>) -> Ordering {
    if a == b {
        Ordering::Equal
    } else {
        build_metadata_order(a, b)
    }
}

/// The total order of `semver::Version`: major, minor and patch numbers
/// compared as a triple, then the pre-release, then the build metadata.
pub open spec fn semver_order(
    a: (u64, u64, u64, Seq<char>, Seq<char>),
    b: (u64, u64, u64, Seq<char>, Seq<char>),
) -> Ordering {
    if a.0 != b.0 {
        number_order(a.0, b.0)
    } else if a.1 != b.1 {
        number_order(a.1, b.1)
    } else if a.2 != b.2 {
        number_order(a.2, b.2)
    } else if a.3 != b.3 {
        pre_order(a.3, b.3)
    } else {
        build_order(a.4, b.4)
    }
}

/// `semver::Version::parse`.  The result's numbers and texts are read off
/// the parsed version's public fields and `as_str`; whether the text is
/// accepted, and what it parses to, is the named `semver_parse`.
#[verifier::external_body]
fn parse_semver(text: &str) -> (r: Option<SemVer>)
    ensures
        match r {
            Some(v) => semver_parse(text@) == Some(v@),
            None => semver_parse(text@) is None,
        },
{
    match semver::Version::parse(text) {
        Ok(version) => Some(SemVer {
            major: version.major,
            minor: version.minor,
            patch: version.patch,
            pre: version.pre.as_str().to_owned(),
            build: version.build.as_str().to_owned(),
            version,
        }),
        Err(_) => None,
    }
}

/// `Ord::cmp` of `semver::Version`, which the crate derives over the fields
/// `major`, `minor`, `patch`, `pre` and `build` in that order.  The
/// contract states the derived order, the equality of equal texts, and the
/// rule that a release ranks above its pre-releases; how two different
/// non-empty pre-releases, or two different build texts, compare is named,
/// not stated.  The crate documents the order as total, and its `Ord`
/// impls for `Prerelease` and `BuildMetadata` compare dot-separated
/// identifiers lexicographically, so the contract also states that
/// swapping the versions reverses the result, and that the order chains
/// through the compared pair: a version at most `a`, where `a` is at most
/// `b`, is at most `b`.
#[verifier::external_body]
fn semver_cmp(a: &SemVer, b: &SemVer) -> (r: Ordering)
    ensures
        r == semver_order(a@, b@),
        a@.0 == b@.0 && a@.1 == b@.1 && a@.2 == b@.2 && a@.3 != b@.3 && a@.3.len() > 0
            && b@.3.len() > 0 ==> r == prerelease_order(a@.3, b@.3),
        a@.0 == b@.0 && a@.1 == b@.1 && a@.2 == b@.2 && a@.3 == b@.3 && a@.4 != b@.4
            ==> r == build_metadata_order(a@.4, b@.4),
        semver_order(b@, a@) == reversed(r),
        forall|t: Seq<char>|
            #[trigger] semver_parse(t) is Some ==> (semver_order(semver_parse(t)->0, a@) != Ordering::Greater
                && r != Ordering::Greater ==> semver_order(semver_parse(t)->0, b@) != Ordering::Greater),
{
    a.version.cmp(&b.version)
}

/// The text of a version as `Display` for `semver::Version` writes it:
/// `major.minor.patch`, then `-pre` and `+build` when those are not empty.
pub open spec fn semver_text(v: (u64, u64, u64, Seq<char>, Seq<char>)) -> Seq<char> {
    let core = decimal(v.0 as nat) + "."@ + decimal(v.1 as nat) + "."@ + decimal(v.2 as nat);
    let with_pre = if v.3.len() == 0 { core } else { core + "-"@ + v.3 };
    if v.4.len() == 0 { with_pre } else { with_pre + "+"@ + v.4 }
}

impl SemVer {
    /// Parses a semantic version; `None` when `semver` refuses the text.
    pub fn parse(text: &str) -> (r: Option<SemVer>)
        ensures
            match r {
                Some(v) => semver_parse(text@) == Some(v@),
                None => semver_parse(text@) is None,
            },
    {
        parse_semver(text)
    }

    /// The version's text, as `semver` displays it.
    pub fn to_text(&self) -> (r: String)
        ensures
            r@ == semver_text(self@),
    {
        let mut r = decimal_text(self.major);
        r.append(".");
        let minor = decimal_text(self.minor);
        r.append(minor.as_str());
        r.append(".");
        let patch = decimal_text(self.patch);
        r.append(patch.as_str());
        if !self.pre.as_str().is_empty() {
            r.append("-");
            r.append(self.pre.as_str());
        }
        if !self.build.as_str().is_empty() {
            r.append("+");
            r.append(self.build.as_str());
        }
        r
    }

    /// Compares two versions by `semver`'s total order: swapping them
    /// reverses the result, and a version at most `self`, where `self` is
    /// at most `other`, is at most `other`.
    pub fn compare(&self, other: &SemVer) -> (r: Ordering)
        ensures
            r == semver_order(self@, other@),
            semver_order(other@, self@) == reversed(r),
            forall|t: Seq<char>|
                #[trigger] semver_parse(t) is Some ==> (semver_order(semver_parse(t)->0, self@) != Ordering::Greater
                    && r != Ordering::Greater ==> semver_order(semver_parse(t)->0, other@) != Ordering::Greater),
    {
        semver_cmp(self, other)
    }
}

/// The message for a newer published release.
pub open spec fn update_available_message(current: Seq<char>, latest: Seq<char>) -> Seq<char> {
    "Update available: nvmman "@ + current + " -> "@ + latest + "\nRun: cargo install nvmman --version "@
        + latest + " --force"@
}

/// The message for an installed release equal to the published one.
pub open spec fn up_to_date_message(current: Seq<char>) -> Seq<char> {
    "nvmman "@ + current + " is up to date."@
}

/// The message for an installed release newer than the published one.
pub open spec fn ahead_message(current: Seq<char>, latest: Seq<char>) -> Seq<char> {
    "nvmman "@ + current + " is newer than the latest crates.io release ("@ + latest + ")."@
}

/// What `nvmman update` prints for the running version and the newest
/// published one.
pub open spec fn update_message_spec(
    current: (u64, u64, u64, Seq<char>, Seq<char>),
    latest: (u64, u64, u64, Seq<char>, Seq<char>),
) -> Seq<char> {
    match semver_order(latest, current) {
        Ordering::Greater => update_available_message(semver_text(current), semver_text(latest)),
        Ordering::Equal => up_to_date_message(semver_text(current)),
        Ordering::Less => ahead_message(semver_text(current), semver_text(latest)),
    }
}

/// Reports whether a newer release than `current` is published, with the
/// exact command that installs it.
pub fn update_message(current: &SemVer, latest: &SemVer) -> (r: String)
    ensures
        r@ == update_message_spec(current@, latest@),
{
    let current_text = current.to_text();
    let latest_text = latest.to_text();
    match latest.compare(current) {
        Ordering::Greater => {
            let mut r = "Update available: nvmman ".to_owned();
            r.append(current_text.as_str());
            r.append(" -> ");
            r.append(latest_text.as_str());
            r.append("\nRun: cargo install nvmman --version ");
            r.append(latest_text.as_str());
            r.append(" --force");
            r
        },
        Ordering::Equal => {
            let mut r = "nvmman ".to_owned();
            r.append(current_text.as_str());
            r.append(" is up to date.");
            r
        },
        Ordering::Less => {
            let mut r = "nvmman ".to_owned();
            r.append(current_text.as_str());
            r.append(" is newer than the latest crates.io release (");
            r.append(latest_text.as_str());
            r.append(").");
            r
        },
    }
}

/// The order of two package version strings: by `semver` when both parse
/// after leading `v`s are dropped, else by their text.
pub open spec fn package_version_order(left: Seq<char>, right: Seq<char>) -> Ordering {
    match (semver_parse(strip_leading_v(left)), semver_parse(strip_leading_v(right))) {
        (Some(a), Some(b)) => semver_order(a, b),
        _ => text_order(left, right),
    }
}

/// Whether `semver` accepts a package version once its leading `v`s are
/// dropped.
pub open spec fn parses_as_semver(v: Seq<char>) -> bool {
    semver_parse(strip_leading_v(v)) is Some
}

/// Whether three package versions are compared alike: all by `semver`, or
/// all by their text.
pub open spec fn compared_alike(a: Seq<char>, b: Seq<char>, c: Seq<char>) -> bool {
    parses_as_semver(a) == parses_as_semver(b) && parses_as_semver(b) == parses_as_semver(c)
}

/// Whether package version `a` ranks strictly above `b`.
pub open spec fn version_ranks_above(a: Seq<char>, b: Seq<char>) -> bool {
    package_version_order(a, b) == Ordering::Greater
}

/// Whether package version `a` ranks at most `b`.
pub open spec fn version_at_most(a: Seq<char>, b: Seq<char>) -> bool {
    package_version_order(a, b) != Ordering::Greater
}

/// Whether package version `a` ranks strictly above `b`.  When it does,
/// `b` ranks at most `a`; when it does not, every version compared alike
/// with them that ranks at most `a` ranks at most `b`.
pub fn ranks_above(a: &str, b: &str) -> (r: bool)
    ensures
        r == version_ranks_above(a@, b@),
        r ==> version_at_most(b@, a@),
        !r ==> forall|t: Seq<char>|
            compared_alike(t, a@, b@) && #[trigger] version_at_most(t, a@) ==> version_at_most(t, b@),
{
    match compare_package_versions(a, b) {
        Ordering::Greater => true,
        _ => false,
    }
}

/// Whether Node.js version name `a` sorts strictly before `b`.
pub open spec fn node_version_before(a: Seq<char>, b: Seq<char>) -> bool {
    node_version_order(a, b) == Ordering::Less
}

/// Whether Node.js version name `a` sorts strictly before `b`.
pub fn node_version_less(a: &str, b: &str) -> (r: bool)
    ensures
        r == node_version_before(a@, b@),
{
    match compare_node_versions(a, b) {
        Ordering::Less => true,
        _ => false,
    }
}

/// What `semver` made of a text, by the parsed version's view.
pub open spec fn parsed_view(v: Option<SemVer>) -> Option<(u64, u64, u64, Seq<char>, Seq<char>)> {
    match v {
        Some(x) => Some(x@),
        None => None,
    }
}

/// The order of two package versions given what `semver` made of each
/// once leading `v`s were dropped: by `semver` when both parsed, else by
/// their text.
pub open spec fn parsed_version_order(
    left: Seq<char>,
    right: Seq<char>,
    left_parsed: Option<(u64, u64, u64, Seq<char>, Seq<char>)>,
    right_parsed: Option<(u64, u64, u64, Seq<char>, Seq<char>)>,
) -> Ordering {
    match (left_parsed, right_parsed) {
        (Some(a), Some(b)) => semver_order(a, b),
        _ => text_order(left, right),
    }
}

/// Orders two package versions given what `semver` made of each.  When
/// both parsed, swapping them reverses the result, and a version at most
/// the left one, where that is at most the right one, is at most the right
/// one.
pub fn order_parsed_versions(
    left: &str,
    right: &str,
    left_parsed: &Option<SemVer>,
    right_parsed: &Option<SemVer>,
) -> (r: Ordering)
    ensures
        r == parsed_version_order(left@, right@, parsed_view(*left_parsed), parsed_view(*right_parsed)),
        match (left_parsed, right_parsed) {
            (Some(a), Some(b)) => semver_order(b@, a@) == reversed(r) && forall|t: Seq<char>|
                #[trigger] semver_parse(t) is Some ==> (semver_order(semver_parse(t)->0, a@) != Ordering::Greater
                    && r != Ordering::Greater ==> semver_order(semver_parse(t)->0, b@) != Ordering::Greater),
            _ => true,
        },
{
    match (left_parsed, right_parsed) {
        (Some(a), Some(b)) => a.compare(b),
        _ => compare_text(left, right),
    }
}

/// Compares two package versions, semantically where possible.  Swapping
/// them reverses the result, and a version compared alike with them that
/// is at most `left`, where `left` is at most `right`, is at most `right`.
pub fn compare_package_versions(left: &str, right: &str) -> (r: Ordering)
    ensures
        r == package_version_order(left@, right@),
        package_version_order(right@, left@) == reversed(r),
        forall|t: Seq<char>|
            compared_alike(t, left@, right@) && #[trigger] package_version_order(t, left@) != Ordering::Greater
                && r != Ordering::Greater ==> package_version_order(t, right@) != Ordering::Greater,
{
    let left_parsed = SemVer::parse(trim_start_v(left));
    let right_parsed = SemVer::parse(trim_start_v(right));
    let o = order_parsed_versions(left, right, &left_parsed, &right_parsed);
    proof {
        if left_parsed is Some && right_parsed is Some {
            assert forall|t: Seq<char>|
                compared_alike(t, left@, right@) && #[trigger] package_version_order(t, left@)
                    != Ordering::Greater && o != Ordering::Greater implies package_version_order(t, right@)
                    != Ordering::Greater by {
                assert(semver_parse(strip_leading_v(t)) is Some);
            }
        } else {
            law_text_order_antisymmetric(left@, right@);
            assert forall|t: Seq<char>|
                compared_alike(t, left@, right@) && #[trigger] package_version_order(t, left@)
                    != Ordering::Greater && o != Ordering::Greater implies package_version_order(t, right@)
                    != Ordering::Greater by {
                lemma_text_order_at_most_transitive(t, left@, right@);
            }
        }
    }
    o
}

/// The order of two Node.js version names such as `v22.1.0`.
pub open spec fn node_version_order(left: Seq<char>, right: Seq<char>) -> Ordering {
    package_version_order(strip_leading_v(left), strip_leading_v(right))
}

/// Compares two Node.js version names.
pub fn compare_node_versions(left: &str, right: &str) -> (r: Ordering)
    ensures
        r == node_version_order(left@, right@),
{
    compare_package_versions(trim_start_v(left), trim_start_v(right))
}

/// Every version string ranks equal to itself.
pub proof fn law_package_version_order_reflexive(v: Seq<char>)
    ensures
        package_version_order(v, v) == Ordering::Equal,
{
    crate::text::lemma_text_lt_irreflexive(v);
}

} // verus!

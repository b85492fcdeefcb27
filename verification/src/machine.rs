//! Facts about the machine: architecture names and the nvm default.

use vstd::prelude::*;
use crate::text::{text_eq, trim, trim_spec, trim_start_spec, trim_end_spec, is_white_space};

verus! {

/// The Node.js name of an architecture reported by the system
/// (`uname -m`): `aarch64` is `arm64`, `x86_64` and `amd64` are `x64`,
/// and any other name is kept, without surrounding white space.
pub open spec fn normalized_architecture(architecture: Seq<char>) -> Seq<char> {
    let t = trim_spec(architecture);
    if t == "arm64"@ || t == "aarch64"@ {
        "arm64"@
    } else if t == "x86_64"@ || t == "amd64"@ {
        "x64"@
    } else {
        t
    }
}

/// Maps a system architecture name to the name Node.js uses for it.
pub fn normalize_architecture(architecture: &str) -> (r: String)
    ensures
        r@ == normalized_architecture(architecture@),
{
    let t = trim(architecture);
    if text_eq(t.as_str(), "arm64") || text_eq(t.as_str(), "aarch64") {
        "arm64".to_owned()
    } else if text_eq(t.as_str(), "x86_64") || text_eq(t.as_str(), "amd64") {
        "x64".to_owned()
    } else {
        t
    }
}

proof fn lemma_trim_start_first(s: Seq<char>)
    ensures
        trim_start_spec(s).len() == 0 || !is_white_space(trim_start_spec(s)[0]),
        trim_start_spec(s).len() <= s.len(),
    decreases s.len(),
{
    if s.len() > 0 && is_white_space(s[0]) {
        lemma_trim_start_first(s.drop_first());
    }
}

proof fn lemma_trim_end_prefix(s: Seq<char>)
    ensures
        trim_end_spec(s) == s.take(trim_end_spec(s).len() as int),
        trim_end_spec(s).len() <= s.len(),
        trim_end_spec(s).len() == 0 || !is_white_space(trim_end_spec(s).last()),
    decreases s.len(),
{
    if s.len() > 0 && is_white_space(s.last()) {
        lemma_trim_end_prefix(s.drop_last());
        let t = trim_end_spec(s.drop_last());
        assert(s.drop_last().take(t.len() as int) =~= s.take(t.len() as int));
    } else {
        assert(s.take(s.len() as int) =~= s);
    }
}

/// Trimming a trimmed text changes nothing.
pub proof fn lemma_trim_idempotent(s: Seq<char>)
    ensures
        trim_spec(trim_spec(s)) == trim_spec(s),
{
    let y = trim_start_spec(s);
    lemma_trim_start_first(s);
    lemma_trim_end_prefix(y);
    let x = trim_end_spec(y);
    if x.len() > 0 {
        assert(x[0] == y[0]);
    }
    assert(trim_start_spec(x) == x);
    lemma_trim_end_prefix(x);
    assert(x.len() == 0 || !is_white_space(x.last()));
    if x.len() > 0 {
        assert(trim_end_spec(x) == x);
    }
}

/// Normalizing an architecture name twice gives what normalizing it once
/// gives: the names that nvmman produces are already Node.js names.
pub proof fn law_normalize_architecture_idempotent(architecture: Seq<char>)
    ensures
        normalized_architecture(normalized_architecture(architecture))
            == normalized_architecture(architecture),
{
    reveal_strlit("arm64");
    reveal_strlit("aarch64");
    reveal_strlit("x86_64");
    reveal_strlit("amd64");
    reveal_strlit("x64");
    let n = normalized_architecture(architecture);
    let t = trim_spec(architecture);
    if t == "arm64"@ || t == "aarch64"@ {
        assert(trim_spec("arm64"@) =~= "arm64"@);
    } else if t == "x86_64"@ || t == "amd64"@ {
        assert(trim_spec("x64"@) =~= "x64"@);
        assert("x64"@ != "arm64"@);
        assert("x64"@ != "aarch64"@);
        assert("x64"@ != "x86_64"@);
        assert("x64"@ != "amd64"@);
    } else {
        lemma_trim_idempotent(architecture);
    }
}

/// The architecture of the host: `arm64` when the process runs translated
/// by Rosetta (`sysctl.proc_translated` reads `1`), otherwise the
/// normalized machine name.
pub open spec fn host_architecture_spec(machine: Seq<char>, translated: Option<Seq<char>>) -> Seq<char> {
    if translated == Some("1"@) {
        "arm64"@
    } else {
        normalized_architecture(machine)
    }
}

/// Decides the host architecture from the machine name (`uname -m`) and the
/// Rosetta translation flag, when it could be read.
pub fn resolve_host_architecture(machine: &str, translated: Option<&str>) -> (r: String)
    ensures
        r@ == host_architecture_spec(machine@, match translated { Some(t) => Some(t@), None => None }),
{
    match translated {
        Some(t) => {
            if text_eq(t, "1") {
                return "arm64".to_owned();
            }
        },
        None => {},
    }
    normalize_architecture(machine)
}

/// The nvm default version from the output of `nvm version default`:
/// none when the trimmed output is empty or `N/A`.
pub open spec fn default_version_spec(output: Seq<char>) -> Option<Seq<char>> {
    let v = trim_spec(output);
    if v.len() == 0 || v == "N/A"@ {
        None
    } else {
        Some(v)
    }
}

/// The message that refuses to work on the default Node when nvm has none.
pub open spec fn no_default_message() -> Seq<char> {
    "no nvm default is configured"@
}

/// The nvm default to work on: the configured one, or a refusal when none
/// is configured.
pub fn configured_default(default: Option<String>) -> (r: Result<String, String>)
    ensures
        match default {
            Some(v) => r == Ok::<String, String>(v),
            None => r matches Err(m) && m@ == no_default_message(),
        },
{
    match default {
        Some(v) => Ok(v),
        None => {
            let m = String::from_str("no nvm default is configured");
            proof {
                reveal_strlit("no nvm default is configured");
            }
            Err(m)
        },
    }
}

/// The architecture recorded for an installation: `missing` when it has no
/// `node` binary, `unknown` when the binary did not report one, else what
/// it reported.
pub open spec fn installation_architecture_spec(binary_present: bool, reported: Option<Seq<char>>) -> Seq<char> {
    if !binary_present {
        "missing"@
    } else {
        match reported {
            Some(a) => a,
            None => "unknown"@,
        }
    }
}

/// The architecture label of an installation, given whether its `node`
/// binary exists and what `node -p process.arch` reported, if it ran.
pub fn installation_architecture(binary_present: bool, reported: Option<String>) -> (r: String)
    ensures
        r@ == installation_architecture_spec(
            binary_present,
            match reported {
                Some(a) => Some(a@),
                None => None,
            },
        ),
{
    if !binary_present {
        let r = String::from_str("missing");
        proof {
            reveal_strlit("missing");
        }
        r
    } else {
        match reported {
            Some(a) => a,
            None => {
                let r = String::from_str("unknown");
                proof {
                    reveal_strlit("unknown");
                }
                r
            },
        }
    }
}

/// The message that refuses a default Node whose architecture is not the
/// host's.
pub open spec fn foreign_default_message(version: Seq<char>, actual: Seq<char>, expected: Seq<char>) -> Seq<char> {
    "default "@ + version + " is "@ + actual + ", but the host requires "@ + expected
}

/// Accepts the nvm default `version` when the architecture of its `node`
/// binary is the host's, and refuses it with the message otherwise.
pub fn check_native_default(version: String, actual: &str, expected: &str) -> (r: Result<String, String>)
    ensures
        actual@ == expected@ ==> r == Ok::<String, String>(version),
        actual@ != expected@ ==> (r matches Err(m) && m@ == foreign_default_message(version@, actual@, expected@)),
{
    if text_eq(actual, expected) {
        Ok(version)
    } else {
        let mut m = "default ".to_owned();
        m.append(version.as_str());
        m.append(" is ");
        m.append(actual);
        m.append(", but the host requires ");
        m.append(expected);
        Err(m)
    }
}

/// The message that refuses a freshly installed Node of the wrong
/// architecture.
pub open spec fn foreign_install_message(architecture: Seq<char>, expected: Seq<char>) -> Seq<char> {
    "nvm installed "@ + architecture + " Node, but this machine requires "@ + expected
        + ". Default was not changed."@
}

/// The message that reports a successful LTS installation.
pub open spec fn installed_message(version: Seq<char>, expected: Seq<char>) -> Seq<char> {
    "Installed "@ + version + " "@ + expected + " and made it the nvm default."@
}

/// Decides whether an installed LTS may become the nvm default: its
/// architecture must be the host's.  `Ok` carries the report that follows a
/// successful `nvm alias default`.
pub fn check_installed_lts(version: &str, architecture: &str, expected: &str) -> (r: Result<String, String>)
    ensures
        architecture@ == expected@ ==> (r matches Ok(m) && m@ == installed_message(version@, expected@)),
        architecture@ != expected@ ==> (r matches Err(m) && m@ == foreign_install_message(architecture@, expected@)),
{
    if text_eq(architecture, expected) {
        let mut m = "Installed ".to_owned();
        m.append(version);
        m.append(" ");
        m.append(expected);
        m.append(" and made it the nvm default.");
        Ok(m)
    } else {
        let mut m = "nvm installed ".to_owned();
        m.append(architecture);
        m.append(" Node, but this machine requires ");
        m.append(expected);
        m.append(". Default was not changed.");
        Err(m)
    }
}

} // verus!

//! The command line: what nvmman does for its first argument.

use vstd::prelude::*;
use crate::text::text_eq;

verus! {

/// What an invocation of nvmman asks for.
#[derive(Debug, PartialEq, Eq)]
pub enum Invocation {
    /// No argument: the interactive interface.
    Interactive,
    /// `--help` or `-h`.
    Help,
    /// `--version` or `-V`.
    Version,
    /// `update`: check crates.io for a newer release.
    Update,
    /// Anything else, which is refused.
    Unknown(String),
}

/// What the first argument asks for.
pub open spec fn invocation_spec(argument: Option<Seq<char>>) -> Option<Invocation> {
    match argument {
        None => Some(Invocation::Interactive),
        Some(a) => if a == "--help"@ || a == "-h"@ {
            Some(Invocation::Help)
        } else if a == "--version"@ || a == "-V"@ {
            Some(Invocation::Version)
        } else if a == "update"@ {
            Some(Invocation::Update)
        } else {
            None
        },
    }
}

/// Decides what an invocation asks for from its first argument.
pub fn invocation(argument: Option<&str>) -> (r: Invocation)
    ensures
        match invocation_spec(match argument { Some(a) => Some(a@), None => None }) {
            Some(i) => r == i,
            None => r matches Invocation::Unknown(a) && a@ == argument.unwrap()@,
        },
{
    match argument {
        None => Invocation::Interactive,
        Some(a) => {
            if text_eq(a, "--help") || text_eq(a, "-h") {
                Invocation::Help
            } else if text_eq(a, "--version") || text_eq(a, "-V") {
                Invocation::Version
            } else if text_eq(a, "update") {
                Invocation::Update
            } else {
                Invocation::Unknown(a.to_owned())
            }
        },
    }
}

/// The error for an argument nvmman does not know.
pub fn unknown_argument_message(argument: &str) -> (r: String)
    ensures
        r@ == "unknown argument: "@ + argument@ + "\n\nRun `nvmman --help` for usage."@,
{
    let mut r = "unknown argument: ".to_owned();
    r.append(argument);
    r.append("\n\nRun `nvmman --help` for usage.");
    r
}

/// The line `nvmman --version` prints.
pub fn version_line(version: &str) -> (r: String)
    ensures
        r@ == "nvmman "@ + version@,
{
    let mut r = "nvmman ".to_owned();
    r.append(version);
    r
}

} // verus!

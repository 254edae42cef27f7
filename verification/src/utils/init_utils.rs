//! Start-up decisions: how the server is asked to run.

use vstd::prelude::*;
use vstd::string::*;
use crate::utils::text::str_equal;

verus! {

/// How the server runs.
#[derive(Debug, Clone, Copy, PartialEq, Eq, Structural)]
pub enum RunMode {
    /// Serve over HTTPS.
    Tls,
    /// Serve over plain HTTP.
    NoTls,
    /// Print the usage text and leave.
    PrintHelp,
}

/// The run mode that the first command-line argument asks for, or `None`
/// for an argument that is no option of the server.
pub open spec fn run_mode_of(arg1: Option<Seq<char>>) -> Option<RunMode> {
    match arg1 {
        None => Some(RunMode::Tls),
        Some(arg) => {
            if arg == "--no-tls"@ {
                Some(RunMode::NoTls)
            } else if arg == "--help"@ || arg == "-h"@ {
                Some(RunMode::PrintHelp)
            } else {
                None
            }
        },
    }
}

/// The complaint about an argument that is no option of the server.
pub open spec fn unrecognized_option(arg: Seq<char>) -> Seq<char> {
    "Option \""@ + arg + "\" is not recognized."@
}

/// Decides the run mode from the first command-line argument, if one was
/// given. An argument that is no option is refused with a complaint that
/// names it.
pub fn process_cli_args(arg1: Option<String>) -> (mode: Result<RunMode, String>)
    ensures
        match mode {
            Ok(m) => run_mode_of(
                match arg1 {
                    Some(a) => Some(a@),
                    None => None,
                },
            ) == Some(m),
            Err(complaint) => arg1 matches Some(a) && run_mode_of(Some(a@)) is None && complaint@
                == unrecognized_option(a@),
        },
{
    match arg1 {
        None => Ok(RunMode::Tls),
        Some(arg) => {
            if str_equal(arg.as_str(), "--no-tls") {
                Ok(RunMode::NoTls)
            } else if str_equal(arg.as_str(), "--help") || str_equal(arg.as_str(), "-h") {
                Ok(RunMode::PrintHelp)
            } else {
                let mut complaint = "Option \"".to_owned();
                complaint.append(arg.as_str());
                complaint.append("\" is not recognized.");
                Err(complaint)
            }
        },
    }
}

/// Whether the notes that precede logging go to standard output: they do
/// when the setting is there and is anything but `0`.
pub fn prelog_enabled(setting: Option<&str>) -> (enabled: bool)
    ensures
        enabled == (setting matches Some(value) && value@ != "0"@),
{
    match setting {
        Some(value) => !str_equal(value, "0"),
        None => false,
    }
}

} // verus!

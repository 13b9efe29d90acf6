//! Arguments of the platform termination commands and the judgement of
//! their outcome.

use vstd::prelude::*;
use crate::num::{spec_decimal, decimal_string};
use crate::scan::views;

verus! {

/// A failure of the facade, carrying a descriptive message.
pub struct ProcessError {
    pub message: String,
}

/// Arguments handed to the POSIX signal-sending command: the interrupt
/// signal, as the conventional numeric value, and the process identifier
/// in decimal.
pub fn kill_args(pid: u32) -> (r: Vec<String>)
    ensures
        views(r@) == seq!["-2"@, spec_decimal(pid as nat)],
{
    let mut r: Vec<String> = Vec::new();
    r.push("-2".to_owned());
    r.push(decimal_string(pid));
    proof {
        assert(views(r@) =~~= seq!["-2"@, spec_decimal(pid as nat)]);
    }
    r
}

/// Arguments handed to the Windows forced-termination command: the
/// process-identifier flag and the identifier in decimal.
pub fn taskkill_args(pid: u32) -> (r: Vec<String>)
    ensures
        views(r@) == seq!["/PID"@, spec_decimal(pid as nat)],
{
    let mut r: Vec<String> = Vec::new();
    r.push("/PID".to_owned());
    r.push(decimal_string(pid));
    proof {
        assert(views(r@) =~~= seq!["/PID"@, spec_decimal(pid as nat)]);
    }
    r
}

/// The message carried by a failed termination: a fixed prefix followed
/// by the raw diagnostics of the command run.
pub open spec fn spec_kill_failure_message(diagnostics: Seq<char>) -> Seq<char> {
    "Kill command failed: "@ + diagnostics
}

/// Judge the POSIX termination command's outcome.  The call succeeds
/// exactly when the command itself reported success; otherwise the error
/// embeds the command's diagnostics for the caller to inspect.
pub fn kill_outcome(command_succeeded: bool, diagnostics: &str) -> (r: Result<(), ProcessError>)
    ensures
        r is Ok <==> command_succeeded,
        r matches Err(e) ==> e.message@ == spec_kill_failure_message(diagnostics@),
{
    if command_succeeded {
        Ok(())
    } else {
        let mut m = String::new();
        m.append("Kill command failed: ");
        m.append(diagnostics);
        Err(ProcessError { message: m })
    }
}

} // verus!

use vstd::prelude::*;
use crate::error::ADBError;
use crate::text::{has_substring, str_contains};

verus! {

/// The text that explains a failure: the error stream when it says
/// anything, else the output stream.
pub open spec fn failure_detail(stdout: Seq<char>, stderr: Seq<char>) -> Seq<char> {
    if stderr.len() > 0 {
        stderr
    } else {
        stdout
    }
}

/// Whether `r` is the command error with exactly the text `m`.
pub open spec fn is_command_error(r: Option<ADBError>, m: Seq<char>) -> bool {
    r is Some && r->0 is CommandError && r->0->CommandError_0@ == m
}

fn detail_of<'a>(stdout: &'a str, stderr: &'a str) -> (r: &'a str)
    ensures
        r@ == failure_detail(stdout@, stderr@),
{
    if stderr.unicode_len() > 0 {
        stderr
    } else {
        stdout
    }
}

/// The error of a package install or uninstall: it failed when the tool
/// exited with a failure or either stream mentions `Failure`. The message
/// quotes the output stream when it mentions `Failure`, else the error
/// stream when it says anything.
pub fn package_command_failure(what: &str, succeeded: bool, stdout: &str, stderr: &str) -> (r:
    Option<ADBError>)
    ensures
        r is None <==> (succeeded && !has_substring(stdout@, "Failure"@) && !has_substring(
            stderr@,
            "Failure"@,
        )),
        r is Some && has_substring(stdout@, "Failure"@) ==> is_command_error(
            r,
            what@ + " failed: "@ + stdout@,
        ),
        r is Some && !has_substring(stdout@, "Failure"@) && stderr@.len() > 0 ==> is_command_error(
            r,
            what@ + " failed: "@ + stderr@,
        ),
        r is Some && !has_substring(stdout@, "Failure"@) && stderr@.len() == 0 ==> is_command_error(
            r,
            what@ + " failed for an unknown reason"@,
        ),
{
    let out_failure = str_contains(stdout, "Failure");
    let err_failure = str_contains(stderr, "Failure");
    if succeeded && !out_failure && !err_failure {
        return None;
    }
    let mut message = String::from_str(what);
    if out_failure {
        message.append(" failed: ");
        message.append(stdout);
    } else if stderr.unicode_len() > 0 {
        message.append(" failed: ");
        message.append(stderr);
    } else {
        message.append(" failed for an unknown reason");
    }
    Some(ADBError::CommandError(message))
}

/// The error of a network connect: it failed when the tool exited with a
/// failure or its output mentions `failed` or `unable`.
pub fn connect_failure(succeeded: bool, stdout: &str, stderr: &str) -> (r: Option<ADBError>)
    ensures
        r is None <==> (succeeded && !has_substring(stdout@, "failed"@) && !has_substring(
            stdout@,
            "unable"@,
        )),
        r is Some ==> is_command_error(r, "connect failed: "@ + failure_detail(stdout@, stderr@)),
{
    if succeeded && !str_contains(stdout, "failed") && !str_contains(stdout, "unable") {
        return None;
    }
    let mut message = String::from_str("connect failed: ");
    message.append(detail_of(stdout, stderr));
    Some(ADBError::CommandError(message))
}

/// The error of a command run as given: it failed when the tool exited
/// with a failure.
pub fn command_failure(succeeded: bool, stdout: &str, stderr: &str) -> (r: Option<ADBError>)
    ensures
        r is None <==> succeeded,
        r is Some ==> is_command_error(r, "command failed: "@ + failure_detail(stdout@, stderr@)),
{
    if succeeded {
        return None;
    }
    let mut message = String::from_str("command failed: ");
    message.append(detail_of(stdout, stderr));
    Some(ADBError::CommandError(message))
}

} // verus!

//! Verification oracle: the outcome of a workspace verify command and the
//! message that feeds a failure back into the retry loop.

use vstd::prelude::*;
use crate::numfmt::{decimal, signed_decimal, i32_decimal, u64_decimal};
use crate::text::{chars_of, from_utf8_lossy, push_all, push_str, string_from_chars, utf8_lossy};

verus! {

broadcast use vstd::string::group_string_axioms;

/// Result of a verification command execution.
#[derive(Debug)]
pub struct VerifyResult {
    pub exit_code: Option<i32>,
    pub stdout: String,
    pub stderr: String,
    pub timed_out: bool,
}

impl VerifyResult {
    /// Whether the command succeeded (exit code 0 and no timeout).
    pub fn is_success(&self) -> (r: bool)
        ensures
            r == (!self.timed_out && self.exit_code == Some(0i32)),
    {
        !self.timed_out && match self.exit_code {
            Some(c) => c == 0,
            None => false,
        }
    }

    /// The result of a command that finished with `exit_code` (none when a
    /// signal ended it) and wrote `stdout` and `stderr`.
    pub fn from_output(exit_code: Option<i32>, stdout: &[u8], stderr: &[u8]) -> (r: Self)
        ensures
            r.exit_code == exit_code,
            r.stdout@ == utf8_lossy(stdout@),
            r.stderr@ == utf8_lossy(stderr@),
            !r.timed_out,
    {
        VerifyResult {
            exit_code,
            stdout: from_utf8_lossy(stdout),
            stderr: from_utf8_lossy(stderr),
            timed_out: false,
        }
    }

    /// The result of a command stopped after `timeout_secs` seconds.
    pub fn timed_out_after(timeout_secs: u64) -> (r: Self)
        ensures
            r.exit_code is None,
            r.stdout@ == Seq::<char>::empty(),
            r.stderr@ == "Command timed out after "@ + decimal(timeout_secs as nat) + " seconds"@,
            r.timed_out,
    {
        let mut e = chars_of("Command timed out after ");
        let n = u64_decimal(timeout_secs);
        push_all(&mut e, n.as_slice());
        push_str(&mut e, " seconds");
        let empty: Vec<char> = Vec::new();
        VerifyResult {
            exit_code: None,
            stdout: string_from_chars(empty.as_slice()),
            stderr: string_from_chars(e.as_slice()),
            timed_out: true,
        }
    }
}

/// How a failed verification ended: `exit code N`, or `timeout`.
pub open spec fn exit_info(code: Option<i32>) -> Seq<char> {
    match code {
        Some(c) => "exit code "@ + signed_decimal(c as int),
        None => "timeout"@,
    }
}

/// The message injected into the conversation after a failed verification.
pub open spec fn error_message(code: Option<i32>, stderr: Seq<char>) -> Seq<char> {
    "Local verification failed with "@ + exit_info(code) + ". Stderr:\n```\n"@ + stderr
        + "\n```\nPlease re-analyze."@
}

/// Format a verification failure as a message to inject into the conversation.
pub fn format_error_message(result: &VerifyResult) -> (r: String)
    ensures
        r@ == error_message(result.exit_code, result.stderr@),
{
    let mut m = chars_of("Local verification failed with ");
    match result.exit_code {
        Some(code) => {
            push_str(&mut m, "exit code ");
            let d = i32_decimal(code);
            push_all(&mut m, d.as_slice());
        },
        None => push_str(&mut m, "timeout"),
    }
    push_str(&mut m, ". Stderr:\n```\n");
    push_str(&mut m, result.stderr.as_str());
    push_str(&mut m, "\n```\nPlease re-analyze.");
    assert(m@ =~= error_message(result.exit_code, result.stderr@));
    string_from_chars(m.as_slice())
}

} // verus!

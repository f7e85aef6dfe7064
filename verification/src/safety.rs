//! Safeguards of writing commands: the confirmation gate, timestamps and
//! backup names, and recording backups in the report.
use vstd::prelude::*;

use std::time::SystemTime;

use crate::num::{decimal, decimal_chars};
use crate::text::{append, append_str, chars_of, string_of};
use crate::utils::{CliError, OperationReport};

verus! {

#[verifier::external_type_specification]
#[verifier::external_body]
pub struct ExSystemTime(SystemTime);

/// `SystemTime::now`: the current time of the system clock.
#[verifier::external_body]
fn system_now() -> SystemTime {
    SystemTime::now()
}

/// `SystemTime::duration_since(UNIX_EPOCH)` in whole seconds; `None` when the
/// time is before the epoch.
#[verifier::external_body]
fn secs_since_unix_epoch(t: &SystemTime) -> Option<u64> {
    t.duration_since(std::time::UNIX_EPOCH).ok().map(|d| d.as_secs())
}

/// `atty::is(atty::Stream::Stdin)`: whether standard input is a terminal.
/// It asks the operating system about this process, so nothing is stated of
/// the answer.
#[verifier::external_body]
fn stdin_is_terminal() -> bool {
    atty::is(atty::Stream::Stdin)
}

/// Whether the command may ask questions, given whether standard input is a
/// terminal: only on a terminal, and only when `--no-input` was not given.
pub fn interactive_session(stdin_is_tty: bool, no_input: bool) -> (r: bool)
    ensures
        r == (stdin_is_tty && !no_input),
{
    stdin_is_tty && !no_input
}

/// Whether the command may ask questions: standard input is a terminal and
/// `--no-input` was not given (see [`interactive_session`]). Whether standard
/// input is a terminal depends on how the process was started, so of the
/// result only what holds either way is stated.
pub fn is_interactive(no_input: bool) -> (r: bool)
    ensures
        r ==> !no_input,
{
    interactive_session(stdin_is_terminal(), no_input)
}

/// The timestamp for a clock reading given in whole seconds since the Unix
/// epoch, none when the clock is before the epoch: the seconds, else 0.
pub fn timestamp_from(secs_since_epoch: Option<u64>) -> (r: u64)
    ensures
        r == match secs_since_epoch {
            Some(s) => s,
            None => 0,
        },
{
    match secs_since_epoch {
        Some(s) => s,
        None => 0,
    }
}

/// Seconds since the Unix epoch, 0 when the clock is before it (see
/// [`timestamp_from`]). The reading depends on the system clock, so nothing
/// is stated of the value.
pub fn current_timestamp() -> u64 {
    timestamp_from(secs_since_unix_epoch(&system_now()))
}

/// Records a backup that was made (if any) in the report.
pub fn append_backup(report: &mut OperationReport, backup: &Option<String>)
    ensures
        final(report).warnings == old(report).warnings,
        final(report).changed_files == old(report).changed_files,
        final(report).rolled_back == old(report).rolled_back,
        final(report).sensitive == old(report).sensitive,
        match backup {
            Some(path) => final(report).backups@ == old(report).backups@.push(*path),
            None => final(report).backups == old(report).backups,
        },
{
    if let Some(path) = backup {
        report.backups.push(path.clone());
    }
}

/// The file name of a backup: `<prefix>.<timestamp>.bak`.
pub open spec fn backup_file_name_spec(prefix: Seq<char>, timestamp: u64) -> Seq<char> {
    prefix + "."@ + decimal(timestamp as nat) + ".bak"@
}

/// The file name of a backup: `<prefix>.<timestamp>.bak`.
pub fn backup_file_name(prefix: &str, timestamp: u64) -> (r: String)
    ensures
        r@ == backup_file_name_spec(prefix@, timestamp),
{
    let mut v = chars_of(prefix);
    append_str(&mut v, ".");
    append(&mut v, &decimal_chars(timestamp));
    append_str(&mut v, ".bak");
    string_of(&v)
}

/// What the confirmation gate of a writing command decides before any prompt.
pub enum ConfirmationGate {
    /// A dry run, or confirmed on the command line: go on.
    Proceed,
    /// Ask the user.
    Ask,
    /// Not interactive and not confirmed: refuse with this error.
    Refuse(CliError),
}

/// The confirmation gate: a dry run or `--confirm` goes on, an interactive
/// session asks, anything else is refused for want of `--confirm`.
pub fn confirmation_gate(interactive: bool, dry_run: bool, confirmed: bool) -> (r:
    ConfirmationGate)
    ensures
        (dry_run || confirmed) ==> r is Proceed,
        (!dry_run && !confirmed && interactive) ==> r is Ask,
        (!dry_run && !confirmed && !interactive) ==> (r matches ConfirmationGate::Refuse(e) && e.message@
            == "非交互模式下必须显式传入 --confirm"@ && e.code == 1),
{
    if dry_run || confirmed {
        ConfirmationGate::Proceed
    } else if interactive {
        ConfirmationGate::Ask
    } else {
        ConfirmationGate::Refuse(CliError::new("非交互模式下必须显式传入 --confirm"))
    }
}

/// The outcome of the confirmation prompt: going on when the user agreed,
/// otherwise an error with exit code 0 saying the command was cancelled.
pub fn confirmation_answer(proceed: bool) -> (r: Result<(), CliError>)
    ensures
        proceed ==> r is Ok,
        !proceed ==> (r matches Err(e) && e.message@ == "已取消执行"@ && e.code == 0),
{
    if proceed {
        Ok(())
    } else {
        Err(CliError::new("已取消执行").with_code(0))
    }
}

} // verus!

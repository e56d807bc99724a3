//! What `setup` decides and reports while it runs the environment's hooks.

use vstd::prelude::*;

use crate::error::{Failure, SiloError};
use crate::text::{digits, push_digits, push_str};

verus! {

/// What `setup` does.
#[derive(Debug, PartialEq, Eq)]
pub enum SetupStep {
    /// The hooks ran before and `--force` was not given.
    AlreadyDone,
    /// The manifest lists no hooks.
    NoHooks,
    /// Run the hooks in order.
    Run,
}

/// `setup` skips when its marker exists and `--force` is not given; else it
/// has nothing to do without hooks; else it runs them.
pub fn setup_plan(marker_exists: bool, force: bool, hooks: usize) -> (r: SetupStep)
    ensures
        marker_exists && !force ==> r == SetupStep::AlreadyDone,
        !(marker_exists && !force) && hooks == 0 ==> r == SetupStep::NoHooks,
        !(marker_exists && !force) && hooks > 0 ==> r == SetupStep::Run,
{
    if marker_exists && !force {
        SetupStep::AlreadyDone
    } else if hooks == 0 {
        SetupStep::NoHooks
    } else {
        SetupStep::Run
    }
}

/// What `setup` prints when it runs no hook.
pub fn setup_notice(step: &SetupStep) -> (r: Option<String>)
    ensures
        *step == SetupStep::AlreadyDone ==> (r matches Some(s) && s@
            == "setup already completed (use --force to re-run)"@),
        *step == SetupStep::NoHooks ==> (r matches Some(s) && s@ == "no setup hooks defined"@),
        *step == SetupStep::Run ==> r is None,
{
    match step {
        SetupStep::AlreadyDone => Some("setup already completed (use --force to re-run)".to_owned()),
        SetupStep::NoHooks => Some("no setup hooks defined".to_owned()),
        SetupStep::Run => None,
    }
}

/// The line printed before hook `i` (counted from zero) of `n`: `[setup i+1/n] cmd`.
pub fn hook_progress(i: usize, n: usize, cmd: &str) -> (out: String)
    requires
        i < usize::MAX,
    ensures
        out@ == "[setup "@ + digits((i + 1) as nat, 10) + "/"@ + digits(n as nat, 10) + "] "@
            + cmd@,
{
    let mut out = "[setup ".to_owned();
    push_digits(&mut out, (i + 1) as u64, 10);
    push_str(&mut out, "/");
    push_digits(&mut out, n as u64, 10);
    push_str(&mut out, "] ");
    push_str(&mut out, cmd);
    out
}

/// The outcome of one hook: a failure stops `setup` with the hook's exit
/// code (-1 when it has none) and its command.
pub fn hook_outcome(success: bool, code: Option<i32>, cmd: &str) -> (r: Result<(), SiloError>)
    ensures
        success ==> r is Ok,
        !success ==> (r matches Err(e) && e@ == (Failure::SetupFailed {
            code: match code {
                Some(c) => c,
                None => -1i32,
            },
            command: cmd@,
        })),
{
    if success {
        Ok(())
    } else {
        let c = match code {
            Some(c) => c,
            None => -1,
        };
        Err(SiloError::SetupFailed { code: c, command: cmd.to_owned() })
    }
}

/// What `setup` prints after all `n` hooks succeeded.
pub fn setup_complete(n: usize) -> (out: String)
    ensures
        out@ == "setup complete ("@ + digits(n as nat, 10) + " commands)"@,
{
    let mut out = "setup complete (".to_owned();
    push_digits(&mut out, n as u64, 10);
    push_str(&mut out, " commands)");
    out
}

} // verus!

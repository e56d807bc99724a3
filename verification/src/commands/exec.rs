//! Choices made before a command runs in an environment, and its exit code.

use vstd::prelude::*;

use crate::error::{Failure, SiloError};
use crate::manifest::Manifest;
use crate::paths::{join_str, path_join};
use crate::text::{decimal, push_decimal, views};

verus! {

/// Where the child starts.
#[derive(Debug)]
pub enum CwdChoice {
    /// The directory given with `--cwd`.
    Given(String),
    /// The caller's current directory (`inherit_cwd`).
    Current,
    /// The environment's home directory.
    EnvHome(String),
}

/// Where the child starts: `--cwd` when given; else the current directory
/// when the manifest inherits it; else `<root>/home`.
pub fn choose_cwd(cwd: Option<String>, manifest: &Manifest) -> (r: CwdChoice)
    ensures
        match cwd {
            Some(c) => r matches CwdChoice::Given(g) && g == c,
            None => if manifest.inherit_cwd {
                r matches CwdChoice::Current
            } else {
                r matches CwdChoice::EnvHome(h) && h@ == path_join(manifest.root@, "home"@)
            },
        },
{
    match cwd {
        Some(c) => CwdChoice::Given(c),
        None => if manifest.inherit_cwd {
            CwdChoice::Current
        } else {
            CwdChoice::EnvHome(join_str(manifest.root.as_str(), "home"))
        },
    }
}

/// The per-run directory `<env_root>/run/<pid>`.
pub fn run_dir_path(env_root: &str, pid: u32) -> (r: String)
    ensures
        r@ == path_join(path_join(env_root@, "run"@), decimal(pid as int)),
{
    let run = join_str(env_root, "run");
    let mut id = String::new();
    push_decimal(&mut id, pid as i64);
    assert(id@ =~= decimal(pid as int));
    join_str(run.as_str(), id.as_str())
}

/// The program and its arguments; an empty command is an error.
pub fn split_command(command: &Vec<String>) -> (r: Result<(String, Vec<String>), SiloError>)
    ensures
        command.len() == 0 ==> (r matches Err(e) && e@ == Failure::EmptyCommand),
        command.len() > 0 ==> (r matches Ok(p) && p.0@ == command@[0]@ && views(p.1@) == views(
            command@,
        ).drop_first()),
{
    if command.len() == 0 {
        return Err(SiloError::EmptyCommand);
    }
    let program = command[0].clone();
    let mut args: Vec<String> = Vec::new();
    let mut i: usize = 1;
    while i < command.len()
        invariant
            1 <= i <= command.len(),
            views(args@) =~= views(command@).subrange(1, i as int),
        decreases command.len() - i,
    {
        let a = command[i].clone();
        let ghost before = args@;
        args.push(a);
        assert(views(args@) =~= views(before).push(command@[i as int]@));
        assert(views(command@).subrange(1, i + 1) =~= views(command@).subrange(1, i as int).push(
            command@[i as int]@,
        ));
        i = i + 1;
    }
    assert(views(command@).subrange(1, command.len() as int) =~= views(command@).drop_first());
    Ok((program, args))
}

/// The exit code to report for a finished child: its own code, or for a
/// child killed by a signal 128 plus the signal number (1 if unknown).
pub open spec fn exit_code_spec(code: Option<i32>, signal: Option<i32>) -> int {
    match code {
        Some(c) => c as int,
        None => 128 + match signal {
            Some(s) => s as int,
            None => 1,
        },
    }
}

/// The exit code to report (see `exit_code_spec`).
pub fn exit_code(code: Option<i32>, signal: Option<i32>) -> (r: i32)
    requires
        code is None && signal is Some ==> signal->0 <= i32::MAX - 128,
    ensures
        r as int == exit_code_spec(code, signal),
{
    match code {
        Some(c) => c,
        None => 128 + match signal {
            Some(s) => s,
            None => 1,
        },
    }
}

} // verus!

//! How the environment's interactive shell is started.

use vstd::prelude::*;

use crate::paths::{file_name, join_str, path_file_name, path_join};
use crate::text::{push_str, str_eq, views};

verus! {

/// The command line that starts the shell `program` with the environment's
/// init script `root`/`init` sourced and the host's rc files suppressed:
/// `zsh` gets `--no-globalrcs --no-rcs`, `bash` gets `--noprofile --norc`,
/// any other shell no flags; the shell then re-executes itself interactively.
pub open spec fn shell_command(program: Seq<char>, root: Seq<char>, init: Seq<char>) -> Seq<
    Seq<char>,
> {
    let init_path = path_join(root, init);
    let name = match file_name(program) {
        Some(n) => n,
        None => Seq::empty(),
    };
    if name == "zsh"@ {
        seq![
            program,
            "--no-globalrcs"@,
            "--no-rcs"@,
            "-c"@,
            "source \""@ + init_path + "\" && exec \""@ + program + "\" --no-globalrcs --no-rcs -i"@,
        ]
    } else if name == "bash"@ {
        seq![
            program,
            "--noprofile"@,
            "--norc"@,
            "-c"@,
            "source \""@ + init_path + "\" && exec \""@ + program + "\" --noprofile --norc -i"@,
        ]
    } else {
        seq![program, "-c"@, "source \""@ + init_path + "\" && exec \""@ + program + "\" -i"@]
    }
}

/// The `-c` script: source the init file, then exec the shell with `flags`.
fn exec_script(init_path: &str, program: &str, flags: &str) -> (out: String)
    ensures
        out@ == "source \""@ + init_path@ + "\" && exec \""@ + program@ + flags@,
{
    let mut out = "source \"".to_owned();
    push_str(&mut out, init_path);
    push_str(&mut out, "\" && exec \"");
    push_str(&mut out, program);
    push_str(&mut out, flags);
    out
}

/// The command line re-executes the shell interactively with the same
/// rc-suppressing flags that the outer shell got: for `zsh` and `bash` the
/// script ends with a space, the two flags of the outer command separated by a
/// space, and ` -i`; any other shell gets no flags and the script ends with
/// `" -i`.
pub proof fn law_reexec_repeats_rc_flags(program: Seq<char>, root: Seq<char>, init: Seq<char>)
    ensures
        ({
            let c = shell_command(program, root, init);
            let suffix = " "@ + c[1] + " "@ + c[2] + " -i"@;
            (file_name(program) == Some("zsh"@) || file_name(program) == Some("bash"@)) ==> {
                &&& c.len() == 5
                &&& c[3] == "-c"@
                &&& suffix.len() < c[4].len()
                &&& c[4].subrange(c[4].len() - suffix.len(), c[4].len() as int) == suffix
            }
        }),
        ({
            let c = shell_command(program, root, init);
            !(file_name(program) == Some("zsh"@) || file_name(program) == Some("bash"@)) ==> {
                &&& c.len() == 3
                &&& c[1] == "-c"@
                &&& c[2].subrange(c[2].len() - 4, c[2].len() as int) == "\" -i"@
            }
        }),
{
    reveal_strlit("zsh");
    reveal_strlit("bash");
    reveal_strlit(" ");
    reveal_strlit(" -i");
    reveal_strlit("\" -i");
    reveal_strlit("--no-globalrcs");
    reveal_strlit("--no-rcs");
    reveal_strlit("--noprofile");
    reveal_strlit("--norc");
    reveal_strlit("\" --no-globalrcs --no-rcs -i");
    reveal_strlit("\" --noprofile --norc -i");
    let c = shell_command(program, root, init);
    let init_path = path_join(root, init);
    let head = "source \""@ + init_path + "\" && exec \""@ + program;
    if file_name(program) == Some("zsh"@) {
        let suffix = " "@ + c[1] + " "@ + c[2] + " -i"@;
        assert("\" --no-globalrcs --no-rcs -i"@ =~= seq!['"'] + suffix);
        assert(c[4] =~= (head + seq!['"']) + suffix);
    } else if file_name(program) == Some("bash"@) {
        let suffix = " "@ + c[1] + " "@ + c[2] + " -i"@;
        assert("\" --noprofile --norc -i"@ =~= seq!['"'] + suffix);
        assert(c[4] =~= (head + seq!['"']) + suffix);
    } else {
        let name = match file_name(program) {
            Some(n) => n,
            None => Seq::empty(),
        };
        assert("zsh"@.len() == 3 && "bash"@.len() == 4);
        assert(name != "zsh"@ && name != "bash"@);
        assert(c[2] =~= head + "\" -i"@);
    }
}

/// Builds the shell's command line (see `shell_command`).
pub fn build_shell_args(program: &str, env_root: &str, init: &str) -> (args: Vec<String>)
    ensures
        views(args@) == shell_command(program@, env_root@, init@),
        args@.len() > 0 && args@[0]@ == program@,
        file_name(program@) == Some("zsh"@) ==> {
            &&& args@.len() == 5
            &&& args@[1]@ == "--no-globalrcs"@
            &&& args@[2]@ == "--no-rcs"@
            &&& args@[3]@ == "-c"@
            &&& args@[4]@ == "source \""@ + path_join(env_root@, init@) + "\" && exec \""@
                + program@ + "\" --no-globalrcs --no-rcs -i"@
        },
        file_name(program@) == Some("bash"@) ==> {
            &&& args@.len() == 5
            &&& args@[1]@ == "--noprofile"@
            &&& args@[2]@ == "--norc"@
            &&& args@[3]@ == "-c"@
            &&& args@[4]@ == "source \""@ + path_join(env_root@, init@) + "\" && exec \""@
                + program@ + "\" --noprofile --norc -i"@
        },
        !(file_name(program@) == Some("zsh"@) || file_name(program@) == Some("bash"@)) ==> {
            &&& args@.len() == 3
            &&& args@[1]@ == "-c"@
            &&& args@[2]@ == "source \""@ + path_join(env_root@, init@) + "\" && exec \""@
                + program@ + "\" -i"@
        },
{
    let init_path = join_str(env_root, init);
    let name = match path_file_name(program) {
        Some(n) => n,
        None => String::new(),
    };
    let mut args: Vec<String> = Vec::new();
    args.push(program.to_owned());
    if str_eq(name.as_str(), "zsh") {
        args.push("--no-globalrcs".to_owned());
        args.push("--no-rcs".to_owned());
        args.push("-c".to_owned());
        args.push(exec_script(init_path.as_str(), program, "\" --no-globalrcs --no-rcs -i"));
    } else if str_eq(name.as_str(), "bash") {
        args.push("--noprofile".to_owned());
        args.push("--norc".to_owned());
        args.push("-c".to_owned());
        args.push(exec_script(init_path.as_str(), program, "\" --noprofile --norc -i"));
    } else {
        args.push("-c".to_owned());
        args.push(exec_script(init_path.as_str(), program, "\" -i"));
    }
    assert(views(args@) =~= shell_command(program@, env_root@, init@));
    proof {
        let c = shell_command(program@, env_root@, init@);
        assert(forall|k: int| 0 <= k < args@.len() ==> #[trigger] args@[k]@ == c[k]);
        reveal_strlit("zsh");
        reveal_strlit("bash");
        assert("zsh"@.len() == 3 && "bash"@.len() == 4);
        assert("bash"@[0] != "zsh"@[0]);
    }
    args
}

} // verus!

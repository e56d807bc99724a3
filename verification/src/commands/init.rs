//! What `init` checks and writes for a new environment.

use vstd::prelude::*;

use crate::error::{Failure, SiloError};
use crate::text::{chars_of, push_str, views};

verus! {

/// Characters allowed in an environment name: ASCII letters and digits, `-` and `_`.
pub open spec fn is_name_char(c: char) -> bool {
    let u = c as u32;
    ||| 0x30 <= u <= 0x39
    ||| 0x41 <= u <= 0x5a
    ||| 0x61 <= u <= 0x7a
    ||| c == '-'
    ||| c == '_'
}

/// Whether `env` is a valid environment name: not empty, and only name characters.
pub open spec fn valid_env_name(env: Seq<char>) -> bool {
    env.len() > 0 && forall|i: int| 0 <= i < env.len() ==> is_name_char(#[trigger] env[i])
}

/// Checks an environment name: an empty name and a name with any character
/// other than ASCII letters, digits, `-` and `_` are refused.
pub fn validate_env_name(env: &str) -> (r: Result<(), SiloError>)
    ensures
        r is Ok <==> valid_env_name(env@),
        env@.len() == 0 ==> (r matches Err(e) && e@ == Failure::EmptyEnvName),
        env@.len() > 0 && !valid_env_name(env@) ==> (r matches Err(e) && e@
            == Failure::InvalidEnvName),
{
    let v = chars_of(env);
    if v.len() == 0 {
        return Err(SiloError::EmptyEnvName);
    }
    let mut i: usize = 0;
    while i < v.len()
        invariant
            0 <= i <= v.len(),
            v@ == env@,
            forall|j: int| 0 <= j < i ==> is_name_char(#[trigger] v@[j]),
        decreases v.len() - i,
    {
        let c = v[i];
        let u: u32 = c as u32;
        let ok = (0x30 <= u && u <= 0x39) || (0x41 <= u && u <= 0x5a) || (0x61 <= u && u <= 0x7a)
            || c == '-' || c == '_';
        if !ok {
            assert(!is_name_char(env@[i as int]));
            return Err(SiloError::InvalidEnvName);
        }
        i = i + 1;
    }
    Ok(())
}

/// A valid environment name is one path component below the environments'
/// directory: it holds no `/` and is neither `.` nor `..`, so it cannot
/// name a directory elsewhere.
pub proof fn law_valid_names_stay_inside(env: Seq<char>)
    requires
        valid_env_name(env),
    ensures
        !env.contains('/'),
        env != seq!['.'],
        env != seq!['.', '.'],
{
    if env.contains('/') {
        let i = choose|i: int| 0 <= i < env.len() && env[i] == '/';
        assert(is_name_char(env[i]));
    }
    assert(is_name_char(env[0]));
}

/// The subdirectories every environment has.
pub open spec fn env_subdir_names() -> Seq<Seq<char>> {
    seq!["home"@, "config"@, "cache"@, "data"@, "state"@, "tmp"@, "run"@]
}

/// The subdirectories every environment has, in the order they are created.
pub fn env_subdirs() -> (r: Vec<String>)
    ensures
        views(r@) == env_subdir_names(),
{
    let mut r: Vec<String> = Vec::new();
    r.push("home".to_owned());
    r.push("config".to_owned());
    r.push("cache".to_owned());
    r.push("data".to_owned());
    r.push("state".to_owned());
    r.push("tmp".to_owned());
    r.push("run".to_owned());
    assert(views(r@) =~= env_subdir_names());
    r
}

/// The manifest text before the environment's name.
pub open spec fn manifest_part_id() -> Seq<char> {
    "id = \""@
}

/// The manifest text between the name and the root.
pub open spec fn manifest_part_root() -> Seq<char> {
    "\"\nroot = \""@
}

/// The manifest text between the root and the name in `env.set`: the default
/// allow and deny lists.
pub open spec fn manifest_part_env() -> Seq<char> {
    "\"\ninherit_cwd = true\nshared_paths = []\n\n[env]"@ + "\nallow = [\"TERM\", \"LANG\", \"LC_ALL\", \"COLORTERM\", \"PATH\"]\n"@
        + "deny = [\n  \"SSH_AUTH_SOCK\",\n  \"OPENAI_API_KEY\",\n  \"ANTHROPIC_API_KEY\",\n  \"GEMINI_API_KEY\",\n  \"AWS_ACCESS_KEY_ID\",\n  \"AWS_SECRET_ACCESS_KEY\",\n  \"AWS_SESSION_TOKEN\",\n  \"GOOGLE_APPLICATION_CREDENTIALS\",\n  \"AZURE_CLIENT_ID\",\n  \"AZURE_CLIENT_SECRET\",\n  \"AZURE_TENANT_ID\",\n  \"http_proxy\",\n  \"https_proxy\",\n  \"ALL_PROXY\",\n]\n\n[env.set]\nAI_ENV = \""@
}

/// The manifest text after the name in `env.set`: secrets, shell and network defaults.
pub open spec fn manifest_part_tail() -> Seq<char> {
    "\"\n\n[secrets]\nprovider = \"keychain\"\nitems = []\n\n[shell]\nprogram = \"/bin/zsh\"\ninit = \"env.zsh\"\n\n[network]\nmode = \"default\"\n"@
}

/// The manifest `init` writes for environment `env` in directory `root`.
pub open spec fn default_manifest_text(env: Seq<char>, root: Seq<char>) -> Seq<char> {
    manifest_part_id() + env + manifest_part_root() + root + manifest_part_env() + env
        + manifest_part_tail()
}

/// The manifest `init` writes passes the host's `TERM`, `LANG`, `LC_ALL`,
/// `COLORTERM` and `PATH` to the environment's commands: right after the
/// `[env]` header stands the line
/// `allow = ["TERM", "LANG", "LC_ALL", "COLORTERM", "PATH"]`, and the
/// secrets come from the keychain with no items, for every name and root.
pub proof fn law_default_manifest_allows_path(env: Seq<char>, root: Seq<char>)
    ensures
        exists|p: Seq<char>, s: Seq<char>|
            default_manifest_text(env, root) == p + "[env]"@
                + "\nallow = [\"TERM\", \"LANG\", \"LC_ALL\", \"COLORTERM\", \"PATH\"]\n"@ + s,
        exists|p: Seq<char>, s: Seq<char>|
            default_manifest_text(env, root) == p
                + "\"\n\n[secrets]\nprovider = \"keychain\"\nitems = []\n"@ + s,
{
    reveal_strlit("\"\ninherit_cwd = true\nshared_paths = []\n\n[env]");
    reveal_strlit("\"\ninherit_cwd = true\nshared_paths = []\n\n");
    reveal_strlit("[env]");
    assert("\"\ninherit_cwd = true\nshared_paths = []\n\n[env]"@ =~= "\"\ninherit_cwd = true\nshared_paths = []\n\n"@
        + "[env]"@);
    let allow = "\nallow = [\"TERM\", \"LANG\", \"LC_ALL\", \"COLORTERM\", \"PATH\"]\n"@;
    let deny = "deny = [\n  \"SSH_AUTH_SOCK\",\n  \"OPENAI_API_KEY\",\n  \"ANTHROPIC_API_KEY\",\n  \"GEMINI_API_KEY\",\n  \"AWS_ACCESS_KEY_ID\",\n  \"AWS_SECRET_ACCESS_KEY\",\n  \"AWS_SESSION_TOKEN\",\n  \"GOOGLE_APPLICATION_CREDENTIALS\",\n  \"AZURE_CLIENT_ID\",\n  \"AZURE_CLIENT_SECRET\",\n  \"AZURE_TENANT_ID\",\n  \"http_proxy\",\n  \"https_proxy\",\n  \"ALL_PROXY\",\n]\n\n[env.set]\nAI_ENV = \""@;
    let p1 = manifest_part_id() + env + manifest_part_root() + root
        + "\"\ninherit_cwd = true\nshared_paths = []\n\n"@;
    let s1 = deny + env + manifest_part_tail();
    assert(default_manifest_text(env, root) =~= p1 + "[env]"@ + allow + s1);
    reveal_strlit("\"\n\n[secrets]\nprovider = \"keychain\"\nitems = []\n\n[shell]\nprogram = \"/bin/zsh\"\ninit = \"env.zsh\"\n\n[network]\nmode = \"default\"\n");
    reveal_strlit("\"\n\n[secrets]\nprovider = \"keychain\"\nitems = []\n");
    reveal_strlit("\n[shell]\nprogram = \"/bin/zsh\"\ninit = \"env.zsh\"\n\n[network]\nmode = \"default\"\n");
    let secrets = "\"\n\n[secrets]\nprovider = \"keychain\"\nitems = []\n"@;
    let rest = "\n[shell]\nprogram = \"/bin/zsh\"\ninit = \"env.zsh\"\n\n[network]\nmode = \"default\"\n"@;
    assert(manifest_part_tail() =~= secrets + rest);
    let p2 = manifest_part_id() + env + manifest_part_root() + root + manifest_part_env() + env;
    assert(default_manifest_text(env, root) =~= p2 + secrets + rest);
}

/// The manifest `init` writes (see `default_manifest_text`).
pub fn default_manifest(env: &str, root: &str) -> (out: String)
    ensures
        out@ == default_manifest_text(env@, root@),
        out@ == "id = \""@ + env@ + "\"\nroot = \""@ + root@ + "\"\ninherit_cwd = true\nshared_paths = []\n\n[env]"@
            + "\nallow = [\"TERM\", \"LANG\", \"LC_ALL\", \"COLORTERM\", \"PATH\"]\n"@
            + "deny = [\n  \"SSH_AUTH_SOCK\",\n  \"OPENAI_API_KEY\",\n  \"ANTHROPIC_API_KEY\",\n  \"GEMINI_API_KEY\",\n  \"AWS_ACCESS_KEY_ID\",\n  \"AWS_SECRET_ACCESS_KEY\",\n  \"AWS_SESSION_TOKEN\",\n  \"GOOGLE_APPLICATION_CREDENTIALS\",\n  \"AZURE_CLIENT_ID\",\n  \"AZURE_CLIENT_SECRET\",\n  \"AZURE_TENANT_ID\",\n  \"http_proxy\",\n  \"https_proxy\",\n  \"ALL_PROXY\",\n]\n\n[env.set]\nAI_ENV = \""@
            + env@ + "\"\n\n[secrets]\nprovider = \"keychain\"\nitems = []\n\n[shell]\nprogram = \"/bin/zsh\"\ninit = \"env.zsh\"\n\n[network]\nmode = \"default\"\n"@,
        exists|p: Seq<char>, s: Seq<char>|
            out@ == p + "\nallow = [\"TERM\", \"LANG\", \"LC_ALL\", \"COLORTERM\", \"PATH\"]\n"@ + s,
{
    let mut out = "id = \"".to_owned();
    push_str(&mut out, env);
    push_str(&mut out, "\"\nroot = \"");
    push_str(&mut out, root);
    push_str(&mut out, "\"\ninherit_cwd = true\nshared_paths = []\n\n[env]");
    push_str(&mut out, "\nallow = [\"TERM\", \"LANG\", \"LC_ALL\", \"COLORTERM\", \"PATH\"]\n");
    push_str(&mut out, "deny = [\n  \"SSH_AUTH_SOCK\",\n  \"OPENAI_API_KEY\",\n  \"ANTHROPIC_API_KEY\",\n  \"GEMINI_API_KEY\",\n  \"AWS_ACCESS_KEY_ID\",\n  \"AWS_SECRET_ACCESS_KEY\",\n  \"AWS_SESSION_TOKEN\",\n  \"GOOGLE_APPLICATION_CREDENTIALS\",\n  \"AZURE_CLIENT_ID\",\n  \"AZURE_CLIENT_SECRET\",\n  \"AZURE_TENANT_ID\",\n  \"http_proxy\",\n  \"https_proxy\",\n  \"ALL_PROXY\",\n]\n\n[env.set]\nAI_ENV = \"");
    push_str(&mut out, env);
    push_str(&mut out, "\"\n\n[secrets]\nprovider = \"keychain\"\nitems = []\n\n[shell]\nprogram = \"/bin/zsh\"\ninit = \"env.zsh\"\n\n[network]\nmode = \"default\"\n");
    proof {
        let p = "id = \""@ + env@ + "\"\nroot = \""@ + root@ + "\"\ninherit_cwd = true\nshared_paths = []\n\n[env]"@;
        let q = "deny = [\n  \"SSH_AUTH_SOCK\",\n  \"OPENAI_API_KEY\",\n  \"ANTHROPIC_API_KEY\",\n  \"GEMINI_API_KEY\",\n  \"AWS_ACCESS_KEY_ID\",\n  \"AWS_SECRET_ACCESS_KEY\",\n  \"AWS_SESSION_TOKEN\",\n  \"GOOGLE_APPLICATION_CREDENTIALS\",\n  \"AZURE_CLIENT_ID\",\n  \"AZURE_CLIENT_SECRET\",\n  \"AZURE_TENANT_ID\",\n  \"http_proxy\",\n  \"https_proxy\",\n  \"ALL_PROXY\",\n]\n\n[env.set]\nAI_ENV = \""@ + env@ + "\"\n\n[secrets]\nprovider = \"keychain\"\nitems = []\n\n[shell]\nprogram = \"/bin/zsh\"\ninit = \"env.zsh\"\n\n[network]\nmode = \"default\"\n"@;
        assert(out@ =~= p + "\nallow = [\"TERM\", \"LANG\", \"LC_ALL\", \"COLORTERM\", \"PATH\"]\n"@ + q);
    }
    out
}

/// The init script `init` writes: it exports `AI_ENV`.
pub fn init_script(env: &str) -> (out: String)
    ensures
        out@ == "export AI_ENV="@ + env@ + "\n"@,
{
    let mut out = "export AI_ENV=".to_owned();
    push_str(&mut out, env);
    push_str(&mut out, "\n");
    out
}

/// What `init` reports: whether the environment's directory was already there.
pub fn init_report(env: &str, was_present: bool) -> (out: String)
    ensures
        was_present ==> out@ == "environment "@ + env@ + " already initialized"@,
        !was_present ==> out@ == "initialized environment "@ + env@,
{
    if was_present {
        let mut out = "environment ".to_owned();
        push_str(&mut out, env);
        push_str(&mut out, " already initialized");
        out
    } else {
        let mut out = "initialized environment ".to_owned();
        push_str(&mut out, env);
        out
    }
}

} // verus!

//! The report `show` prints: an environment's configuration as resolved.

use vstd::prelude::*;

use crate::manifest::Manifest;
use crate::paths::{join_str, path_join};
use crate::text::{concat, join_strings, join_with, push_str, str_eq, views};

verus! {

/// A list as `show` prints it: the items separated by `", "`, or `(none)`.
pub open spec fn list_text(items: Seq<Seq<char>>) -> Seq<char> {
    if items.len() == 0 {
        "(none)"@
    } else {
        join_with(items, ", "@)
    }
}

/// `env.set` as `name=value` items, in increasing order of name.
pub open spec fn set_items(m: Manifest) -> Seq<Seq<char>> {
    m.env.set.pairs().map_values(|p: (Seq<char>, Seq<char>)| p.0 + "="@ + p.1)
}

/// The secrets provider as `show` describes it: the keychain service, the
/// envfile's path, or the provider's name.
pub open spec fn provider_text(m: Manifest, env_root: Seq<char>) -> Seq<char> {
    let provider = m.secrets.provider@;
    if provider == "keychain"@ {
        "keychain (silo."@ + m.id@ + ")"@
    } else if provider == "envfile"@ {
        "envfile ("@ + path_join(env_root, "secrets.env"@) + ")"@
    } else {
        provider
    }
}

/// `true` or `false`.
pub open spec fn bool_text(b: bool) -> Seq<char> {
    if b {
        "true"@
    } else {
        "false"@
    }
}

/// The lines of the `show` report, the blank ones included.
pub open spec fn show_lines_spec(m: Manifest, env_root: Seq<char>) -> Seq<Seq<char>> {
    let root = m.root@;
    let head = seq![
        "Environment:     "@ + m.id@,
        "Root:            "@ + root,
        "Inherit CWD:     "@ + bool_text(m.inherit_cwd),
        "Network:         "@ + m.network.mode@,
    ];
    let proxy = match m.network.proxy_url {
        Some(u) => seq!["Proxy URL:       "@ + u@],
        None => Seq::empty(),
    };
    head + proxy + seq![
        Seq::empty(),
        "Env Allow:       "@ + list_text(views(m.env.allow@)),
        "Env Deny:        "@ + list_text(views(m.env.deny@)),
        "Env Set:         "@ + list_text(set_items(m)),
        Seq::empty(),
        "Secrets:         "@ + provider_text(m, env_root),
        "Secret Items:    "@ + list_text(views(m.secrets.items@)),
        Seq::empty(),
        "Shell:           "@ + m.shell.program@,
        "Shell Init:      "@ + m.shell.init@,
        Seq::empty(),
        "Directories:"@,
        "  HOME             "@ + path_join(root, "home"@),
        "  XDG_CONFIG_HOME  "@ + path_join(root, "config"@),
        "  XDG_CACHE_HOME   "@ + path_join(root, "cache"@),
        "  XDG_DATA_HOME    "@ + path_join(root, "data"@),
        "  XDG_STATE_HOME   "@ + path_join(root, "state"@),
        "  TMPDIR           "@ + path_join(root, "tmp"@),
    ]
}

/// The report opens with the environment's id, its root, whether commands
/// start in the caller's directory (`true` or `false`, as `inherit_cwd` says)
/// and the network mode; a proxy URL, when there is one, follows on the next line.
pub proof fn law_report_head(m: Manifest, env_root: Seq<char>)
    ensures
        ({
            let lines = show_lines_spec(m, env_root);
            &&& lines.len() > 5
            &&& lines[0] == "Environment:     "@ + m.id@
            &&& lines[1] == "Root:            "@ + m.root@
            &&& m.inherit_cwd ==> lines[2] == "Inherit CWD:     true"@
            &&& !m.inherit_cwd ==> lines[2] == "Inherit CWD:     false"@
            &&& lines[3] == "Network:         "@ + m.network.mode@
            &&& m.network.proxy_url matches Some(u) ==> lines[4] == "Proxy URL:       "@ + u@
            &&& m.network.proxy_url is None ==> lines[4].len() == 0
        }),
{
    reveal_strlit("Inherit CWD:     true");
    reveal_strlit("Inherit CWD:     false");
    reveal_strlit("Inherit CWD:     ");
    reveal_strlit("true");
    reveal_strlit("false");
    assert("Inherit CWD:     true"@ =~= "Inherit CWD:     "@ + "true"@);
    assert("Inherit CWD:     false"@ =~= "Inherit CWD:     "@ + "false"@);
}

/// After the head and a blank line come the allowed and denied variables:
/// `(none)` for an empty list, else the names separated by `", "`.
pub proof fn law_report_lists(m: Manifest, env_root: Seq<char>)
    ensures
        ({
            let lines = show_lines_spec(m, env_root);
            let at = if m.network.proxy_url is Some {
                5int
            } else {
                4int
            };
            &&& lines.len() > at + 2
            &&& lines[at].len() == 0
            &&& m.env.allow@.len() == 0 ==> lines[at + 1] == "Env Allow:       (none)"@
            &&& m.env.allow@.len() == 1 ==> lines[at + 1] == "Env Allow:       "@
                + m.env.allow@[0]@
            &&& m.env.allow@.len() > 1 ==> lines[at + 1] == "Env Allow:       "@ + join_with(
                views(m.env.allow@).drop_last(),
                ", "@,
            ) + ", "@ + m.env.allow@.last()@
            &&& m.env.deny@.len() == 0 ==> lines[at + 2] == "Env Deny:        (none)"@
            &&& m.env.deny@.len() == 1 ==> lines[at + 2] == "Env Deny:        "@
                + m.env.deny@[0]@
            &&& m.env.deny@.len() > 1 ==> lines[at + 2] == "Env Deny:        "@ + join_with(
                views(m.env.deny@).drop_last(),
                ", "@,
            ) + ", "@ + m.env.deny@.last()@
        }),
{
    reveal_strlit("Env Allow:       (none)");
    reveal_strlit("Env Allow:       ");
    reveal_strlit("Env Deny:        (none)");
    reveal_strlit("Env Deny:        ");
    reveal_strlit("(none)");
    assert("Env Allow:       (none)"@ =~= "Env Allow:       "@ + "(none)"@);
    assert("Env Deny:        (none)"@ =~= "Env Deny:        "@ + "(none)"@);
    let a = views(m.env.allow@);
    let d = views(m.env.deny@);
    if a.len() > 1 {
        assert(a.last() == m.env.allow@.last()@);
        assert(join_with(a, ", "@) == join_with(a.drop_last(), ", "@) + ", "@ + a.last());
    }
    if d.len() > 1 {
        assert(d.last() == m.env.deny@.last()@);
        assert(join_with(d, ", "@) == join_with(d.drop_last(), ", "@) + ", "@ + d.last());
    }
    let lines = show_lines_spec(m, env_root);
    assert(lines.len() > 6);
}

/// `label` followed by `list_text(items)`.
fn list_line(label: &str, items: &Vec<String>) -> (out: String)
    ensures
        out@ == label@ + list_text(views(items@)),
{
    if items.len() == 0 {
        concat(label, "(none)")
    } else {
        let joined = join_strings(items, ", ");
        concat(label, joined.as_str())
    }
}

/// The `name=value` items of `env.set`.
fn set_item_strings(m: &Manifest) -> (out: Vec<String>)
    ensures
        views(out@) == set_items(*m),
{
    let mut out: Vec<String> = Vec::new();
    let mut i: usize = 0;
    while i < m.env.set.len()
        invariant
            0 <= i <= m.env.set.pairs().len(),
            views(out@) =~= set_items(*m).take(i as int),
        decreases m.env.set.pairs().len() - i,
    {
        let (k, v) = m.env.set.entry(i);
        let mut item = k.clone();
        push_str(&mut item, "=");
        push_str(&mut item, v.as_str());
        let ghost before = out@;
        out.push(item);
        assert(views(out@) =~= views(before).push(item@));
        assert(set_items(*m).take(i + 1) =~= set_items(*m).take(i as int).push(item@));
        i = i + 1;
    }
    assert(set_items(*m).take(i as int) =~= set_items(*m));
    out
}

/// `label` followed by `path_join(root, child)`.
fn dir_line(label: &str, root: &str, child: &str) -> (out: String)
    ensures
        out@ == label@ + path_join(root@, child@),
{
    let p = join_str(root, child);
    concat(label, p.as_str())
}

/// The `Secrets:` line.
fn secrets_line(m: &Manifest, env_root: &str) -> (out: String)
    ensures
        out@ == "Secrets:         "@ + provider_text(*m, env_root@),
{
    let provider = m.secrets.provider.as_str();
    let mut s = "Secrets:         ".to_owned();
    if str_eq(provider, "keychain") {
        push_str(&mut s, "keychain (silo.");
        push_str(&mut s, m.id.as_str());
        push_str(&mut s, ")");
    } else if str_eq(provider, "envfile") {
        let path = join_str(env_root, "secrets.env");
        push_str(&mut s, "envfile (");
        push_str(&mut s, path.as_str());
        push_str(&mut s, ")");
    } else {
        push_str(&mut s, provider);
    }
    assert(s@ =~= "Secrets:         "@ + provider_text(*m, env_root@));
    s
}

/// The lines of the `show` report (see `show_lines_spec`).
pub fn show_lines(manifest: &Manifest, env_root: &str) -> (out: Vec<String>)
    ensures
        views(out@) == show_lines_spec(*manifest, env_root@),
        out@.len() > 5,
        out@[0]@ == "Environment:     "@ + manifest.id@,
        out@[1]@ == "Root:            "@ + manifest.root@,
        out@[2]@ == "Inherit CWD:     "@ + (if manifest.inherit_cwd {
            "true"@
        } else {
            "false"@
        }),
        out@[3]@ == "Network:         "@ + manifest.network.mode@,
{
    let m = manifest;
    let root = m.root.as_str();
    let mut out: Vec<String> = Vec::new();
    out.push(concat("Environment:     ", m.id.as_str()));
    out.push(concat("Root:            ", root));
    out.push(concat("Inherit CWD:     ", if m.inherit_cwd { "true" } else { "false" }));
    out.push(concat("Network:         ", m.network.mode.as_str()));
    match &m.network.proxy_url {
        Some(u) => {
            out.push(concat("Proxy URL:       ", u.as_str()));
        },
        None => {},
    }
    let ghost head = views(out@);
    out.push(String::new());
    out.push(list_line("Env Allow:       ", &m.env.allow));
    out.push(list_line("Env Deny:        ", &m.env.deny));
    let set = set_item_strings(m);
    out.push(list_line("Env Set:         ", &set));
    out.push(String::new());
    let provider_line = secrets_line(m, env_root);
    out.push(provider_line);
    out.push(list_line("Secret Items:    ", &m.secrets.items));
    out.push(String::new());
    out.push(concat("Shell:           ", m.shell.program.as_str()));
    out.push(concat("Shell Init:      ", m.shell.init.as_str()));
    out.push(String::new());
    out.push("Directories:".to_owned());
    out.push(dir_line("  HOME             ", root, "home"));
    out.push(dir_line("  XDG_CONFIG_HOME  ", root, "config"));
    out.push(dir_line("  XDG_CACHE_HOME   ", root, "cache"));
    out.push(dir_line("  XDG_DATA_HOME    ", root, "data"));
    out.push(dir_line("  XDG_STATE_HOME   ", root, "state"));
    out.push(dir_line("  TMPDIR           ", root, "tmp"));
    let ghost tail = views(out@).skip(head.len() as int);
    assert(views(out@) =~= head + tail);
    assert(head =~= show_lines_spec(*manifest, env_root@).take(head.len() as int));
    assert(views(out@) =~= show_lines_spec(*manifest, env_root@));
    assert(views(out@)[2] == out@[2]@);
    out
}

} // verus!

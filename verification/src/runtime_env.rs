//! The environment a child process runs with, built from the manifest, the
//! host's variables and the resolved secrets.

use vstd::prelude::*;

use crate::env_map::{lemma_pairs_map_take, lemma_pairs_map_take_all, lemma_pairs_map_take_none, pairs_map, EnvMap};
use crate::manifest::Manifest;
use crate::paths::{join_str, path_join};
use crate::text::{concat, contains_string, str_eq, views};

verus! {

/// Host variables named in `allow` but not in `deny`, as the host has them.
pub open spec fn inherited_env(
    allow: Seq<Seq<char>>,
    deny: Seq<Seq<char>>,
    host: Map<Seq<char>, Seq<char>>,
) -> Map<Seq<char>, Seq<char>> {
    Map::new(
        |k: Seq<char>| allow.contains(k) && !deny.contains(k) && host.contains_key(k),
        |k: Seq<char>| host[k],
    )
}

/// The proxy that the network mode imposes: a dead one for `offline`, the
/// manifest's `proxy_url` for `proxy`, none otherwise.
pub open spec fn proxy_url(m: Manifest) -> Option<Seq<char>> {
    if m.network.mode@ == "offline"@ {
        Some("http://127.0.0.1:1"@)
    } else if m.network.mode@ == "proxy"@ {
        match m.network.proxy_url {
            Some(u) => Some(u@),
            None => None,
        }
    } else {
        None
    }
}

/// `SILO_ROOT` for the child: the host's own value if it has one, else
/// `$HOME/.silo`, else empty.
pub open spec fn silo_root_value(host: Map<Seq<char>, Seq<char>>) -> Seq<char> {
    if host.contains_key("SILO_ROOT"@) {
        host["SILO_ROOT"@]
    } else if host.contains_key("HOME"@) {
        host["HOME"@] + "/.silo"@
    } else {
        Seq::empty()
    }
}

/// `SILO_HOST_HOME` for the child: the host's own value if it has one (a
/// nested run), else the host's `HOME`, else empty.
pub open spec fn host_home_value(host: Map<Seq<char>, Seq<char>>) -> Seq<char> {
    if host.contains_key("SILO_HOST_HOME"@) {
        host["SILO_HOST_HOME"@]
    } else if host.contains_key("HOME"@) {
        host["HOME"@]
    } else {
        Seq::empty()
    }
}

/// The child's variables before the forced ones: inherited host variables,
/// then `env.set`, then secrets, then the proxy variables, then `SILO_EXEC_DIR`;
/// each later source overrides an earlier one.
pub open spec fn child_env_before_forced(
    m: Manifest,
    host: Map<Seq<char>, Seq<char>>,
    secrets: Map<Seq<char>, Seq<char>>,
    exec_dir: Option<Seq<char>>,
) -> Map<Seq<char>, Seq<char>> {
    let base = inherited_env(views(m.env.allow@), views(m.env.deny@), host).union_prefer_right(
        m.env.set@,
    ).union_prefer_right(secrets);
    let net = match proxy_url(m) {
        Some(u) => base.insert("http_proxy"@, u).insert("https_proxy"@, u).insert("ALL_PROXY"@, u),
        None => base,
    };
    match exec_dir {
        Some(d) => net.insert("SILO_EXEC_DIR"@, d),
        None => net,
    }
}

/// The child's whole environment: the variables above, then the forced ones,
/// which nothing before can override.
pub open spec fn child_env(
    m: Manifest,
    host: Map<Seq<char>, Seq<char>>,
    secrets: Map<Seq<char>, Seq<char>>,
    exec_dir: Option<Seq<char>>,
) -> Map<Seq<char>, Seq<char>> {
    let root = m.root@;
    child_env_before_forced(m, host, secrets, exec_dir).insert(
        "HOME"@,
        path_join(root, "home"@),
    ).insert("XDG_CONFIG_HOME"@, path_join(root, "config"@)).insert(
        "XDG_CACHE_HOME"@,
        path_join(root, "cache"@),
    ).insert("XDG_DATA_HOME"@, path_join(root, "data"@)).insert(
        "XDG_STATE_HOME"@,
        path_join(root, "state"@),
    ).insert("TMPDIR"@, path_join(root, "tmp"@)).insert("SILO_ROOT"@, silo_root_value(host)).insert(
        "SILO_HOST_HOME"@,
        host_home_value(host),
    )
}

/// Copies every entry of `src` into `dst`, later over earlier.
fn insert_all(dst: &mut EnvMap, src: &EnvMap)
    ensures
        final(dst)@ == old(dst)@.union_prefer_right(src@),
{
    let ghost start = dst@;
    proof {
        use_type_invariant(src);
        lemma_pairs_map_take_none(src.pairs());
        assert(start.union_prefer_right(Map::<Seq<char>, Seq<char>>::empty()) =~= start);
    }
    let mut i: usize = 0;
    while i < src.len()
        invariant
            0 <= i <= src.pairs().len(),
            crate::env_map::keys_increasing(src.pairs()),
            dst@ == start.union_prefer_right(pairs_map(src.pairs().take(i as int))),
        decreases src.pairs().len() - i,
    {
        let (k, v) = src.entry(i);
        proof {
            lemma_pairs_map_take(src.pairs(), i as int);
        }
        let ghost before = pairs_map(src.pairs().take(i as int));
        dst.insert(k.clone(), v.clone());
        assert(dst@ =~= start.union_prefer_right(before.insert(k@, v@)));
        i = i + 1;
    }
    proof {
        lemma_pairs_map_take_all(src.pairs());
    }
}

/// The proxy that the manifest's network mode imposes (see `proxy_url`).
fn network_proxy(m: &Manifest) -> (r: Option<String>)
    ensures
        match r {
            Some(u) => proxy_url(*m) == Some(u@),
            None => proxy_url(*m) is None,
        },
{
    let mode = m.network.mode.as_str();
    if str_eq(mode, "offline") {
        Some("http://127.0.0.1:1".to_owned())
    } else if str_eq(mode, "proxy") {
        match &m.network.proxy_url {
            Some(u) => Some(u.clone()),
            None => None,
        }
    } else {
        None
    }
}

/// Builds the child's environment: host variables from `env.allow` that are
/// not in `env.deny`, then `env.set`, then `secrets`, then the proxy
/// variables of the network mode, then `SILO_EXEC_DIR`, and last the forced
/// variables `HOME`, `XDG_*_HOME`, `TMPDIR` (directories under the root),
/// `SILO_ROOT` and `SILO_HOST_HOME`.
pub fn build_child_env(
    manifest: &Manifest,
    host: &EnvMap,
    secrets: EnvMap,
    exec_dir: Option<&str>,
) -> (env: EnvMap)
    ensures
        env@ == child_env(
            *manifest,
            host@,
            secrets@,
            match exec_dir {
                Some(d) => Some(d@),
                None => None,
            },
        ),
{
    let mut env = EnvMap::new();
    let allow = &manifest.env.allow;
    let deny = &manifest.env.deny;
    let ghost av = views(allow@);
    let ghost dv = views(deny@);
    assert(inherited_env(av.take(0), dv, host@) =~= env@);
    let mut i: usize = 0;
    while i < allow.len()
        invariant
            0 <= i <= allow.len(),
            av == views(allow@),
            dv == views(deny@),
            env@ == inherited_env(av.take(i as int), dv, host@),
        decreases allow.len() - i,
    {
        let key = allow[i].as_str();
        let ghost before = env@;
        assert(av.take(i + 1) =~= av.take(i as int).push(key@));
        assert forall|k: Seq<char>|
            av.take(i + 1).contains(k) <==> (av.take(i as int).contains(k) || k == key@) by {
            if av.take(i + 1).contains(k) {
                let j = choose|j: int| 0 <= j < i + 1 && #[trigger] av.take(i + 1)[j] == k;
                if j < i {
                    assert(av.take(i as int)[j] == k);
                }
            }
            if av.take(i as int).contains(k) {
                let j = choose|j: int| 0 <= j < i && #[trigger] av.take(i as int)[j] == k;
                assert(av.take(i + 1)[j] == k);
            }
            if k == key@ {
                assert(av.take(i + 1)[i as int] == k);
            }
        }
        assert(av.take(i + 1)[i as int] == key@);
        let ghost target = inherited_env(av.take(i + 1), dv, host@);
        if !contains_string(deny, key) {
            match host.get(key) {
                Some(v) => {
                    env.insert(allow[i].clone(), v.clone());
                    assert(env@ =~= target);
                },
                None => {
                    assert(env@ =~= target);
                },
            }
        } else {
            assert(env@ =~= target);
        }
        i = i + 1;
    }
    assert(av.take(allow.len() as int) =~= av);
    insert_all(&mut env, &manifest.env.set);
    insert_all(&mut env, &secrets);
    match network_proxy(manifest) {
        Some(url) => {
            env.insert("http_proxy".to_owned(), url.clone());
            env.insert("https_proxy".to_owned(), url.clone());
            env.insert("ALL_PROXY".to_owned(), url);
        },
        None => {},
    }
    match exec_dir {
        Some(dir) => {
            env.insert("SILO_EXEC_DIR".to_owned(), dir.to_owned());
        },
        None => {},
    }
    let root = manifest.root.as_str();
    env.insert("HOME".to_owned(), join_str(root, "home"));
    env.insert("XDG_CONFIG_HOME".to_owned(), join_str(root, "config"));
    env.insert("XDG_CACHE_HOME".to_owned(), join_str(root, "cache"));
    env.insert("XDG_DATA_HOME".to_owned(), join_str(root, "data"));
    env.insert("XDG_STATE_HOME".to_owned(), join_str(root, "state"));
    env.insert("TMPDIR".to_owned(), join_str(root, "tmp"));
    let silo_root = match host.get("SILO_ROOT") {
        Some(r) => r.clone(),
        None => match host.get("HOME") {
            Some(h) => concat(h.as_str(), "/.silo"),
            None => String::new(),
        },
    };
    env.insert("SILO_ROOT".to_owned(), silo_root);
    let host_home = match host.get("SILO_HOST_HOME") {
        Some(h) => h.clone(),
        None => match host.get("HOME") {
            Some(h) => h.clone(),
            None => String::new(),
        },
    };
    env.insert("SILO_HOST_HOME".to_owned(), host_home);
    env
}

} // verus!

verus! {

/// The names the tool always sets itself, last.
pub open spec fn is_forced_key(k: Seq<char>) -> bool {
    ||| k == "HOME"@
    ||| k == "XDG_CONFIG_HOME"@
    ||| k == "XDG_CACHE_HOME"@
    ||| k == "XDG_DATA_HOME"@
    ||| k == "XDG_STATE_HOME"@
    ||| k == "TMPDIR"@
    ||| k == "SILO_ROOT"@
    ||| k == "SILO_HOST_HOME"@
}

/// The names the network mode sets, when it sets any.
pub open spec fn is_proxy_key(k: Seq<char>) -> bool {
    k == "http_proxy"@ || k == "https_proxy"@ || k == "ALL_PROXY"@
}

/// Enough of the spelling of the variable names to tell them apart.
pub proof fn lemma_env_names_distinct()
    ensures
        "HOME"@.len() == 4,
        "XDG_CONFIG_HOME"@.len() == 15,
        "XDG_CACHE_HOME"@.len() == 14,
        "XDG_CACHE_HOME"@[4] == 'C',
        "XDG_CACHE_HOME"@[0] == 'X',
        "XDG_DATA_HOME"@.len() == 13,
        "XDG_DATA_HOME"@[0] == 'X',
        "XDG_STATE_HOME"@.len() == 14,
        "XDG_STATE_HOME"@[4] == 'S',
        "XDG_STATE_HOME"@[0] == 'X',
        "TMPDIR"@.len() == 6,
        "SILO_ROOT"@.len() == 9,
        "SILO_ROOT"@[0] == 'S',
        "SILO_HOST_HOME"@.len() == 14,
        "SILO_HOST_HOME"@[0] == 'S',
        "SILO_EXEC_DIR"@.len() == 13,
        "SILO_EXEC_DIR"@[0] == 'S',
        "http_proxy"@.len() == 10,
        "https_proxy"@.len() == 11,
        "ALL_PROXY"@.len() == 9,
        "ALL_PROXY"@[0] == 'A',
{
    reveal_strlit("HOME");
    reveal_strlit("XDG_CONFIG_HOME");
    reveal_strlit("XDG_CACHE_HOME");
    reveal_strlit("XDG_DATA_HOME");
    reveal_strlit("XDG_STATE_HOME");
    reveal_strlit("TMPDIR");
    reveal_strlit("SILO_ROOT");
    reveal_strlit("SILO_HOST_HOME");
    reveal_strlit("SILO_EXEC_DIR");
    reveal_strlit("http_proxy");
    reveal_strlit("https_proxy");
    reveal_strlit("ALL_PROXY");
}

/// Forced variables cannot be overridden: whatever the host, `env.set`,
/// the secrets or the exec directory hold, the child's `HOME`, XDG
/// directories and `TMPDIR` point under the environment's root, and
/// `SILO_ROOT` and `SILO_HOST_HOME` get the tool's values.
pub proof fn law_forced_variables_win(
    m: Manifest,
    host: Map<Seq<char>, Seq<char>>,
    secrets: Map<Seq<char>, Seq<char>>,
    exec_dir: Option<Seq<char>>,
)
    ensures
        ({
            let e = child_env(m, host, secrets, exec_dir);
            &&& e["HOME"@] == path_join(m.root@, "home"@)
            &&& e["XDG_CONFIG_HOME"@] == path_join(m.root@, "config"@)
            &&& e["XDG_CACHE_HOME"@] == path_join(m.root@, "cache"@)
            &&& e["XDG_DATA_HOME"@] == path_join(m.root@, "data"@)
            &&& e["XDG_STATE_HOME"@] == path_join(m.root@, "state"@)
            &&& e["TMPDIR"@] == path_join(m.root@, "tmp"@)
            &&& e["SILO_ROOT"@] == silo_root_value(host)
            &&& e["SILO_HOST_HOME"@] == host_home_value(host)
        }),
{
    lemma_env_names_distinct();
}

/// The child's environment is clean: every variable it holds is an allowed
/// and not denied host variable, a name of `env.set`, a secret, a proxy
/// variable of the network mode, `SILO_EXEC_DIR` when an exec directory is
/// given, or a forced variable.
pub proof fn law_only_declared_variables(
    m: Manifest,
    host: Map<Seq<char>, Seq<char>>,
    secrets: Map<Seq<char>, Seq<char>>,
    exec_dir: Option<Seq<char>>,
    k: Seq<char>,
)
    requires
        child_env(m, host, secrets, exec_dir).contains_key(k),
    ensures
        ({
            ||| (views(m.env.allow@).contains(k) && !views(m.env.deny@).contains(k)
                && host.contains_key(k))
            ||| m.env.set@.contains_key(k)
            ||| secrets.contains_key(k)
            ||| (proxy_url(m) is Some && is_proxy_key(k))
            ||| (exec_dir is Some && k == "SILO_EXEC_DIR"@)
            ||| is_forced_key(k)
        }),
{
}

/// Deny overrides allow: a denied host variable is never passed through;
/// the child holds that name only if the manifest sets it, it is a secret,
/// or the tool sets it itself.
pub proof fn law_denied_variables_stay_out(
    m: Manifest,
    host: Map<Seq<char>, Seq<char>>,
    secrets: Map<Seq<char>, Seq<char>>,
    exec_dir: Option<Seq<char>>,
    k: Seq<char>,
)
    requires
        views(m.env.deny@).contains(k),
        !m.env.set@.contains_key(k),
        !secrets.contains_key(k),
        !is_proxy_key(k),
        k != "SILO_EXEC_DIR"@,
        !is_forced_key(k),
    ensures
        !child_env(m, host, secrets, exec_dir).contains_key(k),
{
}

/// An allowed, not denied host variable that nothing else sets reaches the
/// child with the host's value.
pub proof fn law_allowed_variables_pass_through(
    m: Manifest,
    host: Map<Seq<char>, Seq<char>>,
    secrets: Map<Seq<char>, Seq<char>>,
    exec_dir: Option<Seq<char>>,
    k: Seq<char>,
)
    requires
        views(m.env.allow@).contains(k),
        !views(m.env.deny@).contains(k),
        host.contains_key(k),
        !m.env.set@.contains_key(k),
        !secrets.contains_key(k),
        !is_proxy_key(k),
        k != "SILO_EXEC_DIR"@,
        !is_forced_key(k),
    ensures
        child_env(m, host, secrets, exec_dir).contains_key(k),
        child_env(m, host, secrets, exec_dir)[k] == host[k],
{
}

/// Secrets override `env.set` and the host: a secret reaches the child with
/// its value unless the tool sets that name itself.
pub proof fn law_secrets_are_injected(
    m: Manifest,
    host: Map<Seq<char>, Seq<char>>,
    secrets: Map<Seq<char>, Seq<char>>,
    exec_dir: Option<Seq<char>>,
    k: Seq<char>,
)
    requires
        secrets.contains_key(k),
        !(proxy_url(m) is Some && is_proxy_key(k)),
        !(exec_dir is Some && k == "SILO_EXEC_DIR"@),
        !is_forced_key(k),
    ensures
        child_env(m, host, secrets, exec_dir)[k] == secrets[k],
{
}

/// In `offline` and `proxy` mode the three proxy variables all name the
/// mode's proxy.
pub proof fn law_network_mode_sets_proxies(
    m: Manifest,
    host: Map<Seq<char>, Seq<char>>,
    secrets: Map<Seq<char>, Seq<char>>,
    exec_dir: Option<Seq<char>>,
)
    requires
        proxy_url(m) is Some,
    ensures
        ({
            let e = child_env(m, host, secrets, exec_dir);
            let u = proxy_url(m)->0;
            &&& e["http_proxy"@] == u
            &&& e["https_proxy"@] == u
            &&& e["ALL_PROXY"@] == u
        }),
{
    lemma_env_names_distinct();
}

/// `SILO_ROOT` survives nesting: a host that already has it passes it on unchanged.
pub proof fn law_silo_root_is_preserved(
    m: Manifest,
    host: Map<Seq<char>, Seq<char>>,
    secrets: Map<Seq<char>, Seq<char>>,
    exec_dir: Option<Seq<char>>,
)
    requires
        host.contains_key("SILO_ROOT"@),
    ensures
        child_env(m, host, secrets, exec_dir)["SILO_ROOT"@] == host["SILO_ROOT"@],
{
    lemma_env_names_distinct();
}

} // verus!

//! The manifest of an environment: its fields, their defaults, and the rules
//! a manifest must keep.
//!
//! Reading TOML into these types is done by the caller; this module holds
//! what happens after: `~` expansion of paths and validation.

use vstd::prelude::*;

use crate::env_map::EnvMap;
use crate::error::AienvError;
use crate::paths::{join_str, path_join};
use crate::text::{has_prefix, push_str, str_eq, str_starts_with, trim, trim_str, views};

verus! {

/// The configuration of one environment.
#[derive(Debug, Clone)]
pub struct Manifest {
    pub id: String,
    pub root: String,
    pub inherit_cwd: bool,
    pub shared_paths: Vec<String>,
    pub env: EnvConfig,
    pub secrets: SecretsConfig,
    pub shell: ShellConfig,
    pub network: NetworkConfig,
    pub setup: SetupConfig,
    pub extends: Option<String>,
}

/// Which host variables the child sees, and which are set for it.
#[derive(Debug, Clone)]
pub struct EnvConfig {
    pub allow: Vec<String>,
    pub deny: Vec<String>,
    pub set: EnvMap,
}

/// Where secrets come from and which are injected.
#[derive(Debug, Clone)]
pub struct SecretsConfig {
    pub provider: String,
    pub items: Vec<String>,
}

/// The shell that `shell` starts and its init script.
#[derive(Debug, Clone)]
pub struct ShellConfig {
    pub program: String,
    pub init: String,
}

/// How the child's network access is constrained.
#[derive(Debug, Clone)]
pub struct NetworkConfig {
    pub mode: String,
    pub proxy_url: Option<String>,
}

/// Commands that `setup` runs once inside the environment.
#[derive(Debug, Clone)]
pub struct SetupConfig {
    pub on_init: Vec<String>,
}

impl Default for EnvConfig {
    fn default() -> (r: Self)
        ensures
            r.allow@.len() == 0,
            r.deny@.len() == 0,
            r.set@ == Map::<Seq<char>, Seq<char>>::empty(),
    {
        EnvConfig { allow: Vec::new(), deny: Vec::new(), set: EnvMap::new() }
    }
}

impl Default for SecretsConfig {
    fn default() -> (r: Self)
        ensures
            r.provider@ == "none"@,
            r.items@.len() == 0,
    {
        SecretsConfig { provider: default_none_provider(), items: Vec::new() }
    }
}

impl Default for ShellConfig {
    fn default() -> (r: Self)
        ensures
            r.program@ == "/bin/zsh"@,
            r.init@ == "env.zsh"@,
    {
        ShellConfig { program: default_zsh(), init: default_env_zsh() }
    }
}

impl Default for NetworkConfig {
    fn default() -> (r: Self)
        ensures
            r.mode@ == "default"@,
            r.proxy_url is None,
    {
        NetworkConfig { mode: default_network_mode(), proxy_url: None }
    }
}

impl Default for SetupConfig {
    fn default() -> (r: Self)
        ensures
            r.on_init@.len() == 0,
    {
        SetupConfig { on_init: Vec::new() }
    }
}

/// Default of `inherit_cwd`.
pub fn default_true() -> (r: bool)
    ensures
        r,
{
    true
}

/// Default of `secrets.provider`.
pub fn default_none_provider() -> (r: String)
    ensures
        r@ == "none"@,
{
    "none".to_owned()
}

/// Default of `shell.program`.
pub fn default_zsh() -> (r: String)
    ensures
        r@ == "/bin/zsh"@,
{
    "/bin/zsh".to_owned()
}

/// Default of `shell.init`.
pub fn default_env_zsh() -> (r: String)
    ensures
        r@ == "env.zsh"@,
{
    "env.zsh".to_owned()
}

/// Default of `network.mode`.
pub fn default_network_mode() -> (r: String)
    ensures
        r@ == "default"@,
{
    "default".to_owned()
}

/// The variables that the child always gets from the tool, which a manifest may not set.
pub open spec fn is_reserved_key(k: Seq<char>) -> bool {
    ||| k == "HOME"@
    ||| k == "XDG_CONFIG_HOME"@
    ||| k == "XDG_CACHE_HOME"@
    ||| k == "XDG_DATA_HOME"@
    ||| k == "XDG_STATE_HOME"@
    ||| k == "TMPDIR"@
    ||| k == "SILO_ROOT"@
}

/// The first reserved name in `keys`, if any.
pub open spec fn first_reserved(keys: Seq<Seq<char>>) -> Option<Seq<char>>
    decreases keys.len(),
{
    if keys.len() == 0 {
        None
    } else if is_reserved_key(keys[0]) {
        Some(keys[0])
    } else {
        first_reserved(keys.drop_first())
    }
}

/// The names set by `env.set`, in increasing order.
pub open spec fn set_keys(m: Manifest) -> Seq<Seq<char>> {
    m.env.set.pairs().map_values(|p: (Seq<char>, Seq<char>)| p.0)
}

/// `path` with a leading `~` standing for `home`: `"~"` becomes `home`,
/// `"~/rest"` becomes `home` joined with `rest`, anything else is kept.
pub open spec fn expand_tilde_spec(path: Seq<char>, home: Seq<char>) -> Seq<char> {
    if path == seq!['~'] {
        home
    } else if has_prefix(path, seq!['~', '/']) {
        path_join(home, path.skip(2))
    } else {
        path
    }
}

/// The rule a manifest breaks first, as the message that reports it, or `None`
/// when it keeps them all. The rules, in the order they are checked:
/// no `extends`; `network.mode` is `default`, `offline` or `proxy`; `id` is
/// not blank; `secrets.provider` is `keychain`, `envfile` or `none`; no
/// reserved name in `env.set` nor in `secrets.items`; `proxy` mode has a
/// `proxy_url`.
pub open spec fn validation_message(m: Manifest) -> Option<Seq<char>> {
    let mode = m.network.mode@;
    let provider = m.secrets.provider@;
    if m.extends is Some {
        Some("manifest inheritance via `extends` is not implemented yet"@)
    } else if !(mode == "default"@ || mode == "offline"@ || mode == "proxy"@) {
        Some("network.mode must be default|offline|proxy, got "@ + mode)
    } else if trim(m.id@).len() == 0 {
        Some("id cannot be empty"@)
    } else if !(provider == "keychain"@ || provider == "envfile"@ || provider == "none"@) {
        Some("secrets.provider must be keychain|envfile|none, got "@ + provider)
    } else if first_reserved(set_keys(m)) is Some {
        Some("env.set contains reserved key: "@ + first_reserved(set_keys(m))->0)
    } else if first_reserved(views(m.secrets.items@)) is Some {
        Some("secrets.items contains reserved key: "@ + first_reserved(views(m.secrets.items@))->0)
    } else if mode == "proxy"@ && m.network.proxy_url is None {
        Some("network.mode = \"proxy\" requires proxy_url to be set"@)
    } else {
        None
    }
}

/// Whether `k` is a reserved variable name.
pub fn is_reserved(k: &str) -> (r: bool)
    ensures
        r == is_reserved_key(k@),
{
    str_eq(k, "HOME") || str_eq(k, "XDG_CONFIG_HOME") || str_eq(k, "XDG_CACHE_HOME") || str_eq(
        k,
        "XDG_DATA_HOME",
    ) || str_eq(k, "XDG_STATE_HOME") || str_eq(k, "TMPDIR") || str_eq(k, "SILO_ROOT")
}

/// A message made of `prefix` followed by `value`.
fn message_with(prefix: &str, value: &str) -> (out: String)
    ensures
        out@ == prefix@ + value@,
{
    let mut out = prefix.to_owned();
    push_str(&mut out, value);
    out
}

/// `path` with a leading `~` replaced by `home` (see `expand_tilde_spec`).
pub fn expand_tilde_path(path: &str, home: &str) -> (out: String)
    ensures
        out@ == expand_tilde_spec(path@, home@),
{
    proof {
        reveal_strlit("~");
        reveal_strlit("~/");
        assert("~"@ =~= seq!['~']);
        assert("~/"@ =~= seq!['~', '/']);
    }
    if str_eq(path, "~") {
        home.to_owned()
    } else if str_starts_with(path, "~/") {
        let v = crate::text::chars_of(path);
        let rest = crate::text::string_of_range(&v, 2, v.len());
        assert(rest@ =~= path@.skip(2));
        join_str(home, rest.as_str())
    } else {
        path.to_owned()
    }
}

impl Manifest {
    /// Checks the manifest's rules; the error names the first rule broken
    /// (see `validation_message`).
    #[verifier::loop_isolation(false)]
    pub fn validate(&self) -> (r: Result<(), AienvError>)
        ensures
            r is Ok <==> validation_message(*self) is None,
            r matches Err(e) ==> e matches AienvError::ManifestValidation(msg) && Some(msg@)
                == validation_message(*self),
    {
        if self.extends.is_some() {
            return Err(
                AienvError::ManifestValidation(
                    "manifest inheritance via `extends` is not implemented yet".to_owned(),
                ),
            );
        }
        let mode = self.network.mode.as_str();
        if !(str_eq(mode, "default") || str_eq(mode, "offline") || str_eq(mode, "proxy")) {
            return Err(
                AienvError::ManifestValidation(
                    message_with("network.mode must be default|offline|proxy, got ", mode),
                ),
            );
        }
        let id = trim_str(self.id.as_str());
        if id.as_str().is_empty() {
            return Err(AienvError::ManifestValidation("id cannot be empty".to_owned()));
        }
        let provider = self.secrets.provider.as_str();
        if !(str_eq(provider, "keychain") || str_eq(provider, "envfile") || str_eq(
            provider,
            "none",
        )) {
            return Err(
                AienvError::ManifestValidation(
                    message_with("secrets.provider must be keychain|envfile|none, got ", provider),
                ),
            );
        }
        let ghost keys = set_keys(*self);
        let mut i: usize = 0;
        assert(keys.skip(0) =~= keys);
        while i < self.env.set.len()
            invariant
                0 <= i <= self.env.set.pairs().len(),
                keys == set_keys(*self),
                keys.len() == self.env.set.pairs().len(),
                first_reserved(keys) == first_reserved(keys.skip(i as int)),
            decreases self.env.set.pairs().len() - i,
        {
            let (k, _v) = self.env.set.entry(i);
            assert(keys.skip(i as int)[0] == k@);
            if is_reserved(k.as_str()) {
                return Err(
                    AienvError::ManifestValidation(
                        message_with("env.set contains reserved key: ", k.as_str()),
                    ),
                );
            }
            assert(keys.skip(i as int).drop_first() =~= keys.skip(i + 1));
            i = i + 1;
        }
        assert(keys.skip(i as int) =~= Seq::<Seq<char>>::empty());
        let ghost items = views(self.secrets.items@);
        let mut j: usize = 0;
        assert(items.skip(0) =~= items);
        while j < self.secrets.items.len()
            invariant
                0 <= j <= self.secrets.items.len(),
                items == views(self.secrets.items@),
                first_reserved(items) == first_reserved(items.skip(j as int)),
            decreases self.secrets.items.len() - j,
        {
            let k = self.secrets.items[j].as_str();
            assert(items.skip(j as int)[0] == k@);
            if is_reserved(k) {
                return Err(
                    AienvError::ManifestValidation(
                        message_with("secrets.items contains reserved key: ", k),
                    ),
                );
            }
            assert(items.skip(j as int).drop_first() =~= items.skip(j + 1));
            j = j + 1;
        }
        assert(items.skip(j as int) =~= Seq::<Seq<char>>::empty());
        if str_eq(mode, "proxy") && self.network.proxy_url.is_none() {
            return Err(
                AienvError::ManifestValidation(
                    "network.mode = \"proxy\" requires proxy_url to be set".to_owned(),
                ),
            );
        }
        Ok(())
    }

    /// Expands a leading `~` in `root` and in each shared path, with `home`
    /// standing for `~`; nothing changes when `home` is `None`.
    pub fn expand_tilde(&mut self, home: Option<&str>)
        ensures
            final(self).root@ == match home {
                Some(h) => expand_tilde_spec(old(self).root@, h@),
                None => old(self).root@,
            },
            views(final(self).shared_paths@) == match home {
                Some(h) => views(old(self).shared_paths@).map_values(
                    |p: Seq<char>| expand_tilde_spec(p, h@),
                ),
                None => views(old(self).shared_paths@),
            },
            final(self).id == old(self).id,
            final(self).inherit_cwd == old(self).inherit_cwd,
            final(self).env == old(self).env,
            final(self).secrets == old(self).secrets,
            final(self).shell == old(self).shell,
            final(self).network == old(self).network,
            final(self).setup == old(self).setup,
            final(self).extends == old(self).extends,
    {
        match home {
            Some(h) => {
                self.root = expand_tilde_path(self.root.as_str(), h);
                let mut out: Vec<String> = Vec::new();
                let mut i: usize = 0;
                while i < self.shared_paths.len()
                    invariant
                        0 <= i <= self.shared_paths.len(),
                        views(out@) =~= views(self.shared_paths@).take(i as int).map_values(
                            |p: Seq<char>| expand_tilde_spec(p, h@),
                        ),
                    decreases self.shared_paths.len() - i,
                {
                    let e = expand_tilde_path(self.shared_paths[i].as_str(), h);
                    let ghost before = out@;
                    out.push(e);
                    assert(views(out@) =~= views(before).push(e@));
                    assert(views(self.shared_paths@).take(i + 1) =~= views(
                        self.shared_paths@,
                    ).take(i as int).push(self.shared_paths@[i as int]@));
                    i = i + 1;
                }
                assert(views(self.shared_paths@).take(i as int) =~= views(self.shared_paths@));
                self.shared_paths = out;
            },
            None => {},
        }
    }

    /// What follows reading a manifest's TOML: `~` expansion (when `home` is
    /// known) and then validation. On success the expanded manifest is returned.
    pub fn finish_parse(self, home: Option<&str>) -> (r: Result<Manifest, AienvError>)
        ensures
            r is Ok <==> validation_message(self) is None,
            r matches Err(e) ==> e matches AienvError::ManifestValidation(msg) && Some(msg@)
                == validation_message(self),
            r matches Ok(m) ==> {
                &&& m.root@ == match home {
                    Some(h) => expand_tilde_spec(self.root@, h@),
                    None => self.root@,
                }
                &&& views(m.shared_paths@) == match home {
                    Some(h) => views(self.shared_paths@).map_values(
                        |p: Seq<char>| expand_tilde_spec(p, h@),
                    ),
                    None => views(self.shared_paths@),
                }
                &&& m.id == self.id
                &&& m.inherit_cwd == self.inherit_cwd
                &&& m.env == self.env
                &&& m.secrets == self.secrets
                &&& m.shell == self.shell
                &&& m.network == self.network
                &&& m.setup == self.setup
                &&& m.extends == self.extends
            },
    {
        let mut m = self;
        m.expand_tilde(home);
        assert(validation_message(m) == validation_message(self));
        match m.validate() {
            Ok(()) => Ok(m),
            Err(e) => Err(e),
        }
    }
}

proof fn lemma_first_reserved_none(keys: Seq<Seq<char>>)
    requires
        first_reserved(keys) is None,
    ensures
        forall|i: int| 0 <= i < keys.len() ==> !is_reserved_key(#[trigger] keys[i]),
    decreases keys.len(),
{
    if keys.len() > 0 {
        lemma_first_reserved_none(keys.drop_first());
        assert forall|i: int| 0 <= i < keys.len() implies !is_reserved_key(#[trigger] keys[i]) by {
            if i > 0 {
                assert(keys[i] == keys.drop_first()[i - 1]);
            }
        }
    }
}

/// A manifest is accepted exactly when it keeps every rule: no `extends`;
/// `network.mode` is `default`, `offline` or `proxy`; `id` is not blank;
/// `secrets.provider` is `keychain`, `envfile` or `none`, whatever
/// `secrets.items` holds; none of `HOME`, `XDG_CONFIG_HOME`, `XDG_CACHE_HOME`,
/// `XDG_DATA_HOME`, `XDG_STATE_HOME`, `TMPDIR`, `SILO_ROOT` is a name in
/// `env.set` or an item of `secrets.items`; `proxy` mode has a `proxy_url`.
pub proof fn law_validation_accepts_exactly_the_rules(m: Manifest)
    ensures
        validation_message(m) is None <==> {
            &&& m.extends is None
            &&& (m.network.mode@ == "default"@ || m.network.mode@ == "offline"@
                || m.network.mode@ == "proxy"@)
            &&& trim(m.id@).len() > 0
            &&& (m.secrets.provider@ == "keychain"@ || m.secrets.provider@ == "envfile"@
                || m.secrets.provider@ == "none"@)
            &&& forall|k: Seq<char>| #[trigger]
                m.env.set@.contains_key(k) ==> !(k == "HOME"@ || k == "XDG_CONFIG_HOME"@ || k
                    == "XDG_CACHE_HOME"@ || k == "XDG_DATA_HOME"@ || k == "XDG_STATE_HOME"@ || k
                    == "TMPDIR"@ || k == "SILO_ROOT"@)
            &&& forall|k: Seq<char>| #[trigger]
                views(m.secrets.items@).contains(k) ==> !(k == "HOME"@ || k == "XDG_CONFIG_HOME"@
                    || k == "XDG_CACHE_HOME"@ || k == "XDG_DATA_HOME"@ || k == "XDG_STATE_HOME"@
                    || k == "TMPDIR"@ || k == "SILO_ROOT"@)
            &&& (m.network.mode@ == "proxy"@ ==> m.network.proxy_url is Some)
        },
{
    let keys = set_keys(m);
    let items = views(m.secrets.items@);
    let ps = m.env.set.pairs();
    if first_reserved(keys) is None {
        lemma_first_reserved_none(keys);
        assert forall|k: Seq<char>| #[trigger] m.env.set@.contains_key(k) implies !is_reserved_key(
            k,
        ) by {
            let i = choose|i: int| 0 <= i < ps.len() && #[trigger] ps[i].0 == k;
            assert(keys[i] == k);
        }
    } else {
        let k = first_reserved(keys)->0;
        assert(exists|i: int| 0 <= i < keys.len() && keys[i] == k && is_reserved_key(k)) by {
            lemma_first_reserved_witness(keys);
        }
        let i = choose|i: int| 0 <= i < keys.len() && keys[i] == k && is_reserved_key(k);
        assert(ps[i].0 == k);
        assert(m.env.set@.contains_key(k));
    }
    if first_reserved(items) is None {
        lemma_first_reserved_none(items);
        assert forall|k: Seq<char>| #[trigger] items.contains(k) implies !is_reserved_key(k) by {
            let i = choose|i: int| 0 <= i < items.len() && items[i] == k;
        }
    } else {
        let k = first_reserved(items)->0;
        assert(exists|i: int| 0 <= i < items.len() && items[i] == k && is_reserved_key(k)) by {
            lemma_first_reserved_witness(items);
        }
        let i = choose|i: int| 0 <= i < items.len() && items[i] == k && is_reserved_key(k);
        assert(items.contains(k));
    }
}

/// A refused manifest is answered with the first rule it breaks, in the order
/// `extends`, `network.mode`, `id`, `secrets.provider`, reserved names in
/// `env.set`, reserved names in `secrets.items`, `proxy_url`; the message
/// quotes the offending mode, provider or name.
pub proof fn law_validation_reports_first_broken_rule(m: Manifest)
    ensures
        m.extends is Some ==> validation_message(m) == Some(
            "manifest inheritance via `extends` is not implemented yet"@,
        ),
        m.extends is None && !(m.network.mode@ == "default"@ || m.network.mode@ == "offline"@
            || m.network.mode@ == "proxy"@) ==> validation_message(m) == Some(
            "network.mode must be default|offline|proxy, got "@ + m.network.mode@,
        ),
        m.extends is None && (m.network.mode@ == "default"@ || m.network.mode@ == "offline"@
            || m.network.mode@ == "proxy"@) && trim(m.id@).len() == 0 ==> validation_message(m)
            == Some("id cannot be empty"@),
        m.extends is None && (m.network.mode@ == "default"@ || m.network.mode@ == "offline"@
            || m.network.mode@ == "proxy"@) && trim(m.id@).len() > 0 && !(m.secrets.provider@
            == "keychain"@ || m.secrets.provider@ == "envfile"@ || m.secrets.provider@ == "none"@)
            ==> validation_message(m) == Some(
            "secrets.provider must be keychain|envfile|none, got "@ + m.secrets.provider@,
        ),
        ({
            let msg = validation_message(m)->0;
            validation_message(m) is Some && msg.len() >= 31 && msg.take(31)
                == "env.set contains reserved key: "@ ==> exists|k: Seq<char>|
                #![trigger m.env.set@.contains_key(k)]
                msg == "env.set contains reserved key: "@ + k && m.env.set@.contains_key(k) && (k
                    == "HOME"@ || k == "XDG_CONFIG_HOME"@ || k == "XDG_CACHE_HOME"@ || k
                    == "XDG_DATA_HOME"@ || k == "XDG_STATE_HOME"@ || k == "TMPDIR"@ || k
                    == "SILO_ROOT"@)
        }),
        ({
            let msg = validation_message(m)->0;
            validation_message(m) is Some && msg.len() >= 37 && msg.take(37)
                == "secrets.items contains reserved key: "@ ==> exists|k: Seq<char>|
                #![trigger views(m.secrets.items@).contains(k)]
                msg == "secrets.items contains reserved key: "@ + k && views(
                    m.secrets.items@,
                ).contains(k) && (k == "HOME"@ || k == "XDG_CONFIG_HOME"@ || k
                    == "XDG_CACHE_HOME"@ || k == "XDG_DATA_HOME"@ || k == "XDG_STATE_HOME"@ || k
                    == "TMPDIR"@ || k == "SILO_ROOT"@)
        }),
        validation_message(m) == Some("network.mode = \"proxy\" requires proxy_url to be set"@)
            ==> m.network.mode@ == "proxy"@ && m.network.proxy_url is None,
{
    let keys = set_keys(m);
    let items = views(m.secrets.items@);
    let ps = m.env.set.pairs();
    reveal_strlit("env.set contains reserved key: ");
    reveal_strlit("secrets.items contains reserved key: ");
    reveal_strlit("manifest inheritance via `extends` is not implemented yet");
    reveal_strlit("network.mode must be default|offline|proxy, got ");
    reveal_strlit("id cannot be empty");
    reveal_strlit("secrets.provider must be keychain|envfile|none, got ");
    reveal_strlit("network.mode = \"proxy\" requires proxy_url to be set");
    if let Some(msg) = validation_message(m) {
        if msg == "network.mode = \"proxy\" requires proxy_url to be set"@ {
            assert(msg[0] == 'n');
            assert(msg[13] == '=');
        }
        if msg.len() >= 31 && msg.take(31) == "env.set contains reserved key: "@ {
            if first_reserved(keys) is Some {
                let k = first_reserved(keys)->0;
                lemma_first_reserved_witness(keys);
                let i = choose|i: int| 0 <= i < keys.len() && keys[i] == k && is_reserved_key(k);
                assert(ps[i].0 == k);
                assert(m.env.set@.contains_key(k));
            }
            assert(msg[0] == msg.take(31)[0]);
        }
        if msg.len() >= 37 && msg.take(37) == "secrets.items contains reserved key: "@ {
            assert(msg[0] == msg.take(37)[0]);
            assert(msg[8] == msg.take(37)[8]);
            if first_reserved(keys) is None && first_reserved(items) is Some {
                let k = first_reserved(items)->0;
                lemma_first_reserved_witness(items);
                let i = choose|i: int| 0 <= i < items.len() && items[i] == k && is_reserved_key(k);
                assert(items.contains(k));
            }
        }
    }
}

proof fn lemma_first_reserved_witness(keys: Seq<Seq<char>>)
    requires
        first_reserved(keys) is Some,
    ensures
        exists|i: int|
            0 <= i < keys.len() && keys[i] == first_reserved(keys)->0 && is_reserved_key(
                first_reserved(keys)->0,
            ),
    decreases keys.len(),
{
    if !is_reserved_key(keys[0]) {
        lemma_first_reserved_witness(keys.drop_first());
        let i = choose|i: int|
            0 <= i < keys.drop_first().len() && keys.drop_first()[i] == first_reserved(
                keys.drop_first(),
            )->0 && is_reserved_key(first_reserved(keys.drop_first())->0);
        assert(keys[i + 1] == keys.drop_first()[i]);
    } else {
        assert(keys[0] == first_reserved(keys)->0);
    }
}

/// A manifest that passes validation neither sets nor asks as a secret any
/// reserved variable (`HOME`, the XDG directories, `TMPDIR`, `SILO_ROOT`).
pub proof fn law_valid_manifest_has_no_reserved_keys(m: Manifest)
    requires
        validation_message(m) is None,
    ensures
        forall|k: Seq<char>| #[trigger] m.env.set@.contains_key(k) ==> !is_reserved_key(k),
        forall|k: Seq<char>| #[trigger] views(m.secrets.items@).contains(k) ==> !is_reserved_key(k),
{
    lemma_first_reserved_none(set_keys(m));
    lemma_first_reserved_none(views(m.secrets.items@));
    assert forall|k: Seq<char>| #[trigger] m.env.set@.contains_key(k) implies !is_reserved_key(k) by {
        let ps = m.env.set.pairs();
        let i = choose|i: int| 0 <= i < ps.len() && #[trigger] ps[i].0 == k;
        assert(set_keys(m)[i] == k);
    }
}

/// Only a leading `~` alone or followed by `/` is expanded: `~user/...`
/// and paths that do not start with `~` are kept as written.
pub proof fn law_tilde_expands_only_home(path: Seq<char>, home: Seq<char>)
    requires
        !(path == seq!['~']),
        !has_prefix(path, seq!['~', '/']),
    ensures
        expand_tilde_spec(path, home) == path,
{
}

} // verus!

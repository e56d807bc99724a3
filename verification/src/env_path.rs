//! Where environments live, the checks a loaded manifest must pass, and
//! which secrets source a manifest selects.
//!
//! The caller reads the environment variables and files; these functions
//! take what was read.

use vstd::prelude::*;

use crate::error::{AienvError, Failure, SiloError};
use crate::manifest::Manifest;
use crate::paths::{join_str, path_join, paths_equal, same_path};
use crate::text::{concat, str_eq};

verus! {

/// The directory that holds all environments: `SILO_ROOT` when it is set,
/// else `$HOME/.silo`; `None` when neither is set.
pub open spec fn silo_root_dir(root_var: Option<Seq<char>>, home_var: Option<Seq<char>>) -> Option<
    Seq<char>,
> {
    match root_var {
        Some(r) => Some(r),
        None => match home_var {
            Some(h) => Some(path_join(h, ".silo"@)),
            None => None,
        },
    }
}

/// The directory that holds all environments, from the values of `SILO_ROOT`
/// and `HOME` (`None` where a variable is unset).
pub fn aienv_root(root_var: Option<&str>, home_var: Option<&str>) -> (r: Result<String, SiloError>)
    ensures
        match silo_root_dir(
            match root_var {
                Some(s) => Some(s@),
                None => None,
            },
            match home_var {
                Some(s) => Some(s@),
                None => None,
            },
        ) {
            Some(d) => r matches Ok(s) && s@ == d,
            None => r matches Err(e) && e@ == Failure::HomeNotSet,
        },
{
    match root_var {
        Some(root) => Ok(root.to_owned()),
        None => match home_var {
            Some(home) => Ok(join_str(home, ".silo")),
            None => Err(SiloError::HomeNotSet),
        },
    }
}

/// The directory of environment `env`: the environments' directory joined with `env`.
pub fn env_root(root_var: Option<&str>, home_var: Option<&str>, env: &str) -> (r: Result<
    String,
    SiloError,
>)
    ensures
        match silo_root_dir(
            match root_var {
                Some(s) => Some(s@),
                None => None,
            },
            match home_var {
                Some(s) => Some(s@),
                None => None,
            },
        ) {
            Some(d) => r matches Ok(s) && s@ == path_join(d, env@),
            None => r matches Err(e) && e@ == Failure::HomeNotSet,
        },
{
    let root = aienv_root(root_var, home_var)?;
    Ok(join_str(root.as_str(), env))
}

/// The envfile of an environment: `secrets.env` in its directory.
pub fn secrets_env_path(env_root: &str) -> (r: String)
    ensures
        r@ == path_join(env_root@, "secrets.env"@),
{
    join_str(env_root, "secrets.env")
}

/// Accepts the manifest read from environment `env`'s directory `root` only
/// if it parsed, its `id` is `env`, and its `root` is that directory (as paths).
pub fn load_manifest(env: &str, root: &str, parsed: Result<Manifest, AienvError>) -> (r: Result<
    (Manifest, String),
    SiloError,
>)
    ensures
        match parsed {
            Err(e) => r matches Err(f) && f@ == Failure::Manifest(e@),
            Ok(m) => if m.id@ != env@ {
                r matches Err(f) && f@ == (Failure::ManifestIdMismatch { id: m.id@, env: env@ })
            } else if !same_path(m.root@, root@) {
                r matches Err(f) && f@ == (Failure::ManifestRootMismatch {
                    root: m.root@,
                    dir: root@,
                })
            } else {
                r matches Ok(p) && p.0 == m && p.1@ == root@
            },
        },
{
    let m = match parsed {
        Ok(m) => m,
        Err(e) => {
            return Err(SiloError::Manifest(e));
        },
    };
    if !str_eq(m.id.as_str(), env) {
        return Err(SiloError::ManifestIdMismatch { id: m.id.clone(), env: env.to_owned() });
    }
    if !paths_equal(m.root.as_str(), root) {
        return Err(SiloError::ManifestRootMismatch { root: m.root.clone(), dir: root.to_owned() });
    }
    Ok((m, root.to_owned()))
}

/// Where a manifest's secrets are to be read from.
#[derive(Debug)]
pub enum SecretsSource {
    /// No secrets are injected.
    Nothing,
    /// Read the listed items from this envfile.
    Envfile { path: String },
    /// Read the listed items from the keychain under this service.
    Keychain { service: String },
}

/// What a `SecretsSource` says, with its strings as characters.
pub enum SourceView {
    Nothing,
    Envfile(Seq<char>),
    Keychain(Seq<char>),
}

impl View for SecretsSource {
    type V = SourceView;

    open spec fn view(&self) -> SourceView {
        match self {
            SecretsSource::Nothing => SourceView::Nothing,
            SecretsSource::Envfile { path } => SourceView::Envfile(path@),
            SecretsSource::Keychain { service } => SourceView::Keychain(service@),
        }
    }
}

/// The source that a manifest's secrets come from: nothing when no item is
/// listed or the provider is `none`; the environment's `secrets.env` for
/// `envfile` (an error when it does not exist); the keychain service
/// `silo.<id>` for `keychain`; an error for any other provider.
pub open spec fn secrets_source(m: Manifest, env_root: Seq<char>, envfile_exists: bool) -> Result<
    SourceView,
    Failure,
> {
    let provider = m.secrets.provider@;
    if m.secrets.items@.len() == 0 || provider == "none"@ {
        Ok(SourceView::Nothing)
    } else if provider == "envfile"@ {
        if envfile_exists {
            Ok(SourceView::Envfile(path_join(env_root, "secrets.env"@)))
        } else {
            Err(Failure::SecretsFileMissing { path: path_join(env_root, "secrets.env"@) })
        }
    } else if provider == "keychain"@ {
        Ok(SourceView::Keychain("silo."@ + m.id@))
    } else {
        Err(Failure::UnknownSecretsProvider { provider })
    }
}

/// Decides where the manifest's secrets come from (see `secrets_source`);
/// `envfile_exists` tells whether `secrets_env_path(env_root)` exists.
pub fn resolve_secrets(manifest: &Manifest, env_root: &str, envfile_exists: bool) -> (r: Result<
    SecretsSource,
    SiloError,
>)
    ensures
        match secrets_source(*manifest, env_root@, envfile_exists) {
            Ok(s) => r matches Ok(x) && x@ == s,
            Err(f) => r matches Err(e) && e@ == f,
        },
{
    let provider = manifest.secrets.provider.as_str();
    if manifest.secrets.items.len() == 0 || str_eq(provider, "none") {
        Ok(SecretsSource::Nothing)
    } else if str_eq(provider, "envfile") {
        let path = secrets_env_path(env_root);
        if envfile_exists {
            Ok(SecretsSource::Envfile { path })
        } else {
            Err(SiloError::SecretsFileMissing { path })
        }
    } else if str_eq(provider, "keychain") {
        Ok(SecretsSource::Keychain { service: concat("silo.", manifest.id.as_str()) })
    } else {
        Err(SiloError::UnknownSecretsProvider { provider: provider.to_owned() })
    }
}

} // verus!

//! Error types, each with the message that it is reported with.

use vstd::prelude::*;

use crate::text::{digits, decimal, push_decimal, push_digits, push_str};

verus! {

/// Why a manifest was refused.
#[derive(Debug)]
pub enum AienvError {
    /// The TOML text could not be read into a manifest; the reason as the parser gave it.
    ManifestParse(String),
    /// The manifest was read but breaks one of its rules.
    ManifestValidation(String),
}

impl AienvError {
    /// The message this error is reported with.
    pub open spec fn text(&self) -> Seq<char> {
        match self {
            AienvError::ManifestParse(s) => "manifest parse error: "@ + s@,
            AienvError::ManifestValidation(s) => "manifest validation error: "@ + s@,
        }
    }

    /// The message this error is reported with.
    pub fn message(&self) -> (out: String)
        ensures
            out@ == self.text(),
    {
        match self {
            AienvError::ManifestParse(s) => {
                let mut out = "manifest parse error: ".to_owned();
                push_str(&mut out, s.as_str());
                out
            },
            AienvError::ManifestValidation(s) => {
                let mut out = "manifest validation error: ".to_owned();
                push_str(&mut out, s.as_str());
                out
            },
        }
    }
}

/// Why a command of the tool could not go on.
#[derive(Debug)]
pub enum SiloError {
    /// Neither `SILO_ROOT` nor `HOME` names where environments live.
    HomeNotSet,
    /// The manifest was refused.
    Manifest(AienvError),
    /// The manifest's `id` is not the environment's name.
    ManifestIdMismatch { id: String, env: String },
    /// The manifest's `root` is not the environment's directory.
    ManifestRootMismatch { root: String, dir: String },
    /// The `envfile` provider is chosen but the file is missing.
    SecretsFileMissing { path: String },
    /// The secrets provider is none of the known ones.
    UnknownSecretsProvider { provider: String },
    /// The envfile can be read by group or others (`mode` is its permission bits).
    EnvfilePermissions { path: String, mode: u32 },
    /// A line of the envfile is neither blank, a comment nor `KEY=value`.
    InvalidEnvfileLine { line: String },
    /// A requested secret is not in the envfile.
    MissingSecret { item: String },
    /// The keychain did not give the secret; `stderr` is what it printed, trimmed.
    KeychainRead { item: String, service: String, stderr: String },
    /// The keychain's answer was not UTF-8; `detail` describes where.
    KeychainOutput { detail: String },
    /// The environment name is empty.
    EmptyEnvName,
    /// The environment name holds a character other than ASCII letters, digits, `-` and `_`.
    InvalidEnvName,
    /// No command was given to run.
    EmptyCommand,
    /// A setup hook failed with the given exit code.
    SetupFailed { code: i32, command: String },
}

impl SiloError {
    /// The message this error is reported with.
    pub open spec fn text(&self) -> Seq<char> {
        match self {
            SiloError::HomeNotSet => "HOME not set"@,
            SiloError::Manifest(e) => e.text(),
            SiloError::ManifestIdMismatch { id, env } => "manifest id \""@ + id@
                + "\" does not match environment name \""@ + env@ + "\""@,
            SiloError::ManifestRootMismatch { root, dir } => "manifest root \""@ + root@
                + "\" does not match environment directory \""@ + dir@ + "\""@,
            SiloError::SecretsFileMissing { path } => "secrets.env not found at "@ + path@,
            SiloError::UnknownSecretsProvider { provider } => "unknown secrets provider: "@
                + provider@,
            SiloError::EnvfilePermissions { path, mode } => "envfile "@ + path@
                + " has too-open permissions ("@ + digits((*mode & 0o777u32) as nat, 8)
                + "); expected no group/other access (e.g. 0600)"@,
            SiloError::InvalidEnvfileLine { line } => "invalid envfile line: "@ + line@,
            SiloError::MissingSecret { item } => "missing secret "@ + item@ + " in envfile"@,
            SiloError::KeychainRead { item, service, stderr } => if stderr@.len() == 0 {
                "failed to read secret "@ + item@ + " from keychain service "@ + service@
            } else {
                "failed to read secret "@ + item@ + " from keychain service "@ + service@ + ": "@
                    + stderr@
            },
            SiloError::KeychainOutput { detail } => detail@,
            SiloError::EmptyEnvName => "environment name cannot be empty"@,
            SiloError::InvalidEnvName => "environment name may only contain ASCII letters, digits, '-' and '_'"@,
            SiloError::EmptyCommand => "command cannot be empty"@,
            SiloError::SetupFailed { code, command } => "setup command failed (exit "@ + decimal(
                *code as int,
            ) + "): "@ + command@,
        }
    }

    /// The message this error is reported with.
    pub fn message(&self) -> (out: String)
        ensures
            out@ == self.text(),
    {
        match self {
            SiloError::HomeNotSet => "HOME not set".to_owned(),
            SiloError::Manifest(e) => e.message(),
            SiloError::ManifestIdMismatch { id, env } => {
                let mut out = "manifest id \"".to_owned();
                push_str(&mut out, id.as_str());
                push_str(&mut out, "\" does not match environment name \"");
                push_str(&mut out, env.as_str());
                push_str(&mut out, "\"");
                out
            },
            SiloError::ManifestRootMismatch { root, dir } => {
                let mut out = "manifest root \"".to_owned();
                push_str(&mut out, root.as_str());
                push_str(&mut out, "\" does not match environment directory \"");
                push_str(&mut out, dir.as_str());
                push_str(&mut out, "\"");
                out
            },
            SiloError::SecretsFileMissing { path } => {
                let mut out = "secrets.env not found at ".to_owned();
                push_str(&mut out, path.as_str());
                out
            },
            SiloError::UnknownSecretsProvider { provider } => {
                let mut out = "unknown secrets provider: ".to_owned();
                push_str(&mut out, provider.as_str());
                out
            },
            SiloError::EnvfilePermissions { path, mode } => {
                let mut out = "envfile ".to_owned();
                push_str(&mut out, path.as_str());
                push_str(&mut out, " has too-open permissions (");
                push_digits(&mut out, (*mode & 0o777u32) as u64, 8);
                push_str(&mut out, "); expected no group/other access (e.g. 0600)");
                out
            },
            SiloError::InvalidEnvfileLine { line } => {
                let mut out = "invalid envfile line: ".to_owned();
                push_str(&mut out, line.as_str());
                out
            },
            SiloError::MissingSecret { item } => {
                let mut out = "missing secret ".to_owned();
                push_str(&mut out, item.as_str());
                push_str(&mut out, " in envfile");
                out
            },
            SiloError::KeychainRead { item, service, stderr } => {
                let mut out = "failed to read secret ".to_owned();
                push_str(&mut out, item.as_str());
                push_str(&mut out, " from keychain service ");
                push_str(&mut out, service.as_str());
                if !stderr.as_str().is_empty() {
                    push_str(&mut out, ": ");
                    push_str(&mut out, stderr.as_str());
                }
                out
            },
            SiloError::KeychainOutput { detail } => detail.clone(),
            SiloError::EmptyEnvName => "environment name cannot be empty".to_owned(),
            SiloError::InvalidEnvName => "environment name may only contain ASCII letters, digits, '-' and '_'".to_owned(),
            SiloError::EmptyCommand => "command cannot be empty".to_owned(),
            SiloError::SetupFailed { code, command } => {
                let mut out = "setup command failed (exit ".to_owned();
                push_decimal(&mut out, *code as i64);
                push_str(&mut out, "): ");
                push_str(&mut out, command.as_str());
                out
            },
        }
    }
}

/// What an `AienvError` says, with its text as characters.
pub enum ManifestFailure {
    Parse(Seq<char>),
    Validation(Seq<char>),
}

impl View for AienvError {
    type V = ManifestFailure;

    open spec fn view(&self) -> ManifestFailure {
        match self {
            AienvError::ManifestParse(s) => ManifestFailure::Parse(s@),
            AienvError::ManifestValidation(s) => ManifestFailure::Validation(s@),
        }
    }
}

/// What a `SiloError` says, with its strings as characters.
pub enum Failure {
    HomeNotSet,
    Manifest(ManifestFailure),
    ManifestIdMismatch { id: Seq<char>, env: Seq<char> },
    ManifestRootMismatch { root: Seq<char>, dir: Seq<char> },
    SecretsFileMissing { path: Seq<char> },
    UnknownSecretsProvider { provider: Seq<char> },
    EnvfilePermissions { path: Seq<char>, mode: u32 },
    InvalidEnvfileLine { line: Seq<char> },
    MissingSecret { item: Seq<char> },
    KeychainRead { item: Seq<char>, service: Seq<char>, stderr: Seq<char> },
    KeychainOutput { detail: Seq<char> },
    EmptyEnvName,
    InvalidEnvName,
    EmptyCommand,
    SetupFailed { code: i32, command: Seq<char> },
}

impl View for SiloError {
    type V = Failure;

    open spec fn view(&self) -> Failure {
        match self {
            SiloError::HomeNotSet => Failure::HomeNotSet,
            SiloError::Manifest(e) => Failure::Manifest(e@),
            SiloError::ManifestIdMismatch { id, env } => Failure::ManifestIdMismatch {
                id: id@,
                env: env@,
            },
            SiloError::ManifestRootMismatch { root, dir } => Failure::ManifestRootMismatch {
                root: root@,
                dir: dir@,
            },
            SiloError::SecretsFileMissing { path } => Failure::SecretsFileMissing { path: path@ },
            SiloError::UnknownSecretsProvider { provider } => Failure::UnknownSecretsProvider {
                provider: provider@,
            },
            SiloError::EnvfilePermissions { path, mode } => Failure::EnvfilePermissions {
                path: path@,
                mode: *mode,
            },
            SiloError::InvalidEnvfileLine { line } => Failure::InvalidEnvfileLine { line: line@ },
            SiloError::MissingSecret { item } => Failure::MissingSecret { item: item@ },
            SiloError::KeychainRead { item, service, stderr } => Failure::KeychainRead {
                item: item@,
                service: service@,
                stderr: stderr@,
            },
            SiloError::KeychainOutput { detail } => Failure::KeychainOutput { detail: detail@ },
            SiloError::EmptyEnvName => Failure::EmptyEnvName,
            SiloError::InvalidEnvName => Failure::InvalidEnvName,
            SiloError::EmptyCommand => Failure::EmptyCommand,
            SiloError::SetupFailed { code, command } => Failure::SetupFailed {
                code: *code,
                command: command@,
            },
        }
    }
}

} // verus!

use vstd::prelude::*;
use crate::error::{AppError, is_error};
use crate::text::{chars_of, concat, contains_str, has_infix, has_prefix, starts_with_seq, strip_end, string_of, trim_end_char};

verus! {

/// The base URL of Resly's test API.
pub open spec fn default_test_url() -> Seq<char> {
    "https://test.api.resly.com.au"@
}

/// The base URL of Resly's production API.
pub open spec fn default_production_url() -> Seq<char> {
    "https://api.resly.com.au"@
}

/// The Resly environment that `init` writes into the configuration.
#[derive(Clone, Copy, PartialEq, Eq, Debug)]
pub enum ReslyEnvironment {
    Test,
    Production,
}

impl ReslyEnvironment {
    /// The name of the environment.
    pub open spec fn spec_label(self) -> Seq<char> {
        match self {
            ReslyEnvironment::Test => "test"@,
            ReslyEnvironment::Production => "production"@,
        }
    }

    /// The API base URL of the environment.
    pub open spec fn spec_base_url(self) -> Seq<char> {
        match self {
            ReslyEnvironment::Test => default_test_url(),
            ReslyEnvironment::Production => default_production_url(),
        }
    }

    /// The name of the environment.
    pub fn label(self) -> (r: &'static str)
        ensures
            r@ == self.spec_label(),
    {
        match self {
            ReslyEnvironment::Test => "test",
            ReslyEnvironment::Production => "production",
        }
    }

    /// The API base URL of the environment.
    pub fn base_url(self) -> (r: &'static str)
        ensures
            r@ == self.spec_base_url(),
    {
        match self {
            ReslyEnvironment::Test => "https://test.api.resly.com.au",
            ReslyEnvironment::Production => "https://api.resly.com.au",
        }
    }
}

/// The settings read from `~/.resly/config.toml`; each may be absent.
pub struct FileConfig {
    pub account_id: Option<String>,
    pub api_key: Option<String>,
    pub base_url: Option<String>,
    pub environment: Option<String>,
}

/// The global command-line options that shape the runtime (flags, or the
/// environment variables that stand in for them).
pub struct GlobalOptions {
    pub json: bool,
    pub fixture: bool,
    pub base_url: Option<String>,
    pub account_id: Option<String>,
    pub api_key: Option<String>,
}

/// Where commands send their requests, with which credentials, and whether
/// they answer from the embedded fixtures instead.
pub struct Runtime {
    pub account_id: Option<String>,
    pub api_key: Option<String>,
    pub base_url: String,
    pub environment: String,
    pub auth_source: &'static str,
    pub base_url_source: &'static str,
    pub fixture_mode: bool,
}

/// The view of an optional text.
pub open spec fn opt_view(o: Option<String>) -> Option<Seq<char>> {
    match o {
        Some(s) => Some(s@),
        None => None,
    }
}

/// The first of two optional texts that is present.
pub open spec fn first_present(a: Option<Seq<char>>, b: Option<Seq<char>>) -> Option<Seq<char>> {
    match a {
        Some(x) => Some(x),
        None => b,
    }
}

/// A copy of an optional text.
pub fn clone_opt(o: &Option<String>) -> (r: Option<String>)
    ensures
        opt_view(r) == opt_view(*o),
{
    match o {
        Some(s) => Some(s.clone()),
        None => None,
    }
}

fn first_of(a: &Option<String>, b: &Option<String>) -> (r: Option<String>)
    ensures
        opt_view(r) == first_present(opt_view(*a), opt_view(*b)),
{
    match a {
        Some(s) => Some(s.clone()),
        None => clone_opt(b),
    }
}

/// The environment that a base URL points at.
pub open spec fn spec_infer_environment(base_url: Seq<char>) -> Seq<char> {
    if has_infix(base_url, "test."@) {
        "test"@
    } else if has_infix(base_url, "api.resly.com.au"@) {
        "production"@
    } else {
        "custom"@
    }
}

/// `test` for a URL that holds `test.`, else `production` for one that
/// holds `api.resly.com.au`, else `custom`.
pub fn infer_environment(base_url: &str) -> (r: &'static str)
    ensures
        r@ == spec_infer_environment(base_url@),
{
    if contains_str(base_url, "test.") {
        "test"
    } else if contains_str(base_url, "api.resly.com.au") {
        "production"
    } else {
        "custom"
    }
}

/// Where the credentials came from: the command line (or its environment
/// variables), the configuration file, or nowhere.
pub open spec fn spec_auth_source(cli: GlobalOptions, file: FileConfig) -> Seq<char> {
    if cli.account_id is Some || cli.api_key is Some {
        "flag-or-env"@
    } else if file.account_id is Some || file.api_key is Some {
        "config"@
    } else {
        "missing"@
    }
}

/// The base URL chosen: the command line's, else the file's, else the test API.
pub open spec fn spec_base_url(cli: GlobalOptions, file: FileConfig) -> Seq<char> {
    match opt_view(cli.base_url) {
        Some(u) => u,
        None => match opt_view(file.base_url) {
            Some(u) => u,
            None => default_test_url(),
        },
    }
}

/// The runtime that the options and the configuration file make: each
/// command-line value overrides the file's, and fixture mode holds when it
/// is asked for or a credential is missing.
pub open spec fn runtime_from(r: Runtime, cli: GlobalOptions, file: FileConfig) -> bool {
    &&& opt_view(r.account_id) == first_present(opt_view(cli.account_id), opt_view(file.account_id))
    &&& opt_view(r.api_key) == first_present(opt_view(cli.api_key), opt_view(file.api_key))
    &&& r.auth_source@ == spec_auth_source(cli, file)
    &&& r.base_url@ == spec_base_url(cli, file)
    &&& r.base_url_source@ == (if cli.base_url is Some {
        "flag-or-env"@
    } else if file.base_url is Some {
        "config"@
    } else {
        "default"@
    })
    &&& r.environment@ == (match opt_view(file.environment) {
        Some(e) => e,
        None => spec_infer_environment(spec_base_url(cli, file)),
    })
    &&& r.fixture_mode == (cli.fixture || r.account_id is None || r.api_key is None)
}

/// The runtime for a command, from the global options and the file configuration.
pub fn build_runtime(cli: &GlobalOptions, file_config: FileConfig) -> (r: Runtime)
    ensures
        runtime_from(r, *cli, file_config),
{
    let account_id = first_of(&cli.account_id, &file_config.account_id);
    let api_key = first_of(&cli.api_key, &file_config.api_key);
    let auth_source = if cli.account_id.is_some() || cli.api_key.is_some() {
        "flag-or-env"
    } else if file_config.account_id.is_some() || file_config.api_key.is_some() {
        "config"
    } else {
        "missing"
    };
    let (base_url, base_url_source) = match &cli.base_url {
        Some(u) => (u.clone(), "flag-or-env"),
        None => match &file_config.base_url {
            Some(u) => (u.clone(), "config"),
            None => (String::from_str("https://test.api.resly.com.au"), "default"),
        },
    };
    let environment = match &file_config.environment {
        Some(e) => e.clone(),
        None => String::from_str(infer_environment(base_url.as_str())),
    };
    let fixture_mode = cli.fixture || account_id.is_none() || api_key.is_none();
    Runtime { account_id, api_key, base_url, environment, auth_source, base_url_source, fixture_mode }
}

/// The URL a request goes to: an absolute `http://` or `https://` path as
/// it is, else the base URL without its trailing slashes joined to the path
/// by one slash.
pub open spec fn spec_absolute_url(base_url: Seq<char>, path: Seq<char>) -> Seq<char> {
    if has_prefix(path, "http://"@) || has_prefix(path, "https://"@) {
        path
    } else if has_prefix(path, "/"@) {
        strip_end(base_url, '/') + path
    } else {
        strip_end(base_url, '/') + "/"@ + path
    }
}

/// The full URL of `path` under the runtime's base URL.
pub fn absolute_url(runtime: &Runtime, path: &str) -> (r: String)
    ensures
        r@ == spec_absolute_url(runtime.base_url@, path@),
{
    let p = chars_of(path);
    let http = chars_of("http://");
    let https = chars_of("https://");
    let slash = chars_of("/");
    if starts_with_seq(&p, &http) || starts_with_seq(&p, &https) {
        return String::from_str(path);
    }
    let b = chars_of(runtime.base_url.as_str());
    let base = trim_end_char(&b, '/');
    let base_text = string_of(base.as_slice());
    if starts_with_seq(&p, &slash) {
        concat(base_text.as_str(), path)
    } else {
        let with_slash = concat(base_text.as_str(), "/");
        concat(with_slash.as_str(), path)
    }
}

/// `base` joined with `part` as `PathBuf::join` does on Unix: an absolute
/// `part` replaces `base`; otherwise one separator is put between them
/// unless `base` is empty or already ends with one.
pub open spec fn join_path(base: Seq<char>, part: Seq<char>) -> Seq<char> {
    if has_prefix(part, "/"@) {
        part
    } else if base.len() == 0 || base.last() == '/' {
        base + part
    } else {
        base + "/"@ + part
    }
}

/// The path `base` joined with `part`.
pub fn path_join(base: &str, part: &str) -> (r: String)
    ensures
        r@ == join_path(base@, part@),
{
    let p = chars_of(part);
    let slash = chars_of("/");
    if starts_with_seq(&p, &slash) {
        return String::from_str(part);
    }
    let b = chars_of(base);
    if b.len() == 0 || b[b.len() - 1] == '/' {
        concat(base, part)
    } else {
        let with_slash = concat(base, "/");
        concat(with_slash.as_str(), part)
    }
}

/// The directory that holds the CLI's files, under the home directory.
pub open spec fn spec_resly_dir(home: Seq<char>) -> Seq<char> {
    join_path(home, ".resly"@)
}

/// `~/.resly`, or `env.missing` when the home directory is not known.
pub fn resly_dir(home: Option<&str>) -> (r: Result<String, AppError>)
    ensures
        match home {
            Some(h) => r matches Ok(p) && p@ == spec_resly_dir(h@),
            None => r matches Err(e) && is_error(e, "env.missing"@, "HOME is not set"@),
        },
{
    match home {
        Some(h) => Ok(path_join(h, ".resly")),
        None => Err(AppError::new("env.missing", "HOME is not set")),
    }
}

/// The path of a file directly under `~/.resly`.
fn resly_file(home: Option<&str>, name: &str) -> (r: Result<String, AppError>)
    ensures
        match home {
            Some(h) => r matches Ok(p) && p@ == join_path(spec_resly_dir(h@), name@),
            None => r matches Err(e) && is_error(e, "env.missing"@, "HOME is not set"@),
        },
{
    let dir = resly_dir(home)?;
    Ok(path_join(dir.as_str(), name))
}

/// `~/.resly/config.toml`.
pub fn config_path(home: Option<&str>) -> (r: Result<String, AppError>)
    ensures
        match home {
            Some(h) => r matches Ok(p) && p@ == join_path(spec_resly_dir(h@), "config.toml"@),
            None => r matches Err(e) && is_error(e, "env.missing"@, "HOME is not set"@),
        },
{
    resly_file(home, "config.toml")
}

/// `~/.resly/token-cache.json`.
pub fn token_cache_path(home: Option<&str>) -> (r: Result<String, AppError>)
    ensures
        match home {
            Some(h) => r matches Ok(p) && p@ == join_path(spec_resly_dir(h@), "token-cache.json"@),
            None => r matches Err(e) && is_error(e, "env.missing"@, "HOME is not set"@),
        },
{
    resly_file(home, "token-cache.json")
}

/// `~/.resly/approvals`, the local approval store.
pub fn approvals_dir(home: Option<&str>) -> (r: Result<String, AppError>)
    ensures
        match home {
            Some(h) => r matches Ok(p) && p@ == join_path(spec_resly_dir(h@), "approvals"@),
            None => r matches Err(e) && is_error(e, "env.missing"@, "HOME is not set"@),
        },
{
    resly_file(home, "approvals")
}

/// `~/.resly/approvals/<id>.json`, where one approval request is kept.
pub fn approval_path(home: Option<&str>, id: &str) -> (r: Result<String, AppError>)
    ensures
        match home {
            Some(h) => r matches Ok(p) && p@ == join_path(
                join_path(spec_resly_dir(h@), "approvals"@),
                id@ + ".json"@,
            ),
            None => r matches Err(e) && is_error(e, "env.missing"@, "HOME is not set"@),
        },
{
    let dir = approvals_dir(home)?;
    let file = concat(id, ".json");
    Ok(path_join(dir.as_str(), file.as_str()))
}

/// Without an account or without a key, from the command line or the
/// configuration file, the CLI answers from its fixtures.
pub proof fn law_missing_credentials_use_fixtures(r: Runtime, cli: GlobalOptions, file: FileConfig)
    requires
        runtime_from(r, cli, file),
        (cli.account_id is None && file.account_id is None) || (cli.api_key is None && file.api_key is None),
    ensures
        r.fixture_mode,
{
}

} // verus!

//! Where the settings come from, and which source wins.

use vstd::prelude::*;
use vstd::utf8::{decode_utf8, encode_utf8, valid_utf8};

verus! {

/// The settings a config file may hold.
#[derive(Debug, Clone)]
pub struct FileConfig {
    pub api_key: Option<String>,
    pub organization: Option<String>,
    pub project: Option<String>,
    pub refresh_secs: Option<u64>,
}

/// The monitor's settings.
#[derive(Debug, Clone)]
pub struct Config {
    pub api_key: String,
    pub organization: Option<String>,
    pub project: Option<String>,
    pub refresh_secs: u64,
}

/// Why no settings could be made.
#[derive(Debug, Clone, Copy, PartialEq, Eq, Structural)]
pub enum ConfigError {
    /// No API key on the command line, in the environment or in the file.
    MissingApiKey,
}

/// The first of two optional values that is present.
pub open spec fn first_present<T>(a: Option<T>, b: Option<T>) -> Option<T> {
    match a {
        Some(x) => Some(x),
        None => b,
    }
}

/// The refresh interval when no source gives one.
pub open spec fn default_refresh_secs() -> u64 {
    15
}

/// The shortest refresh interval.
pub open spec fn min_refresh_secs() -> u64 {
    3
}

/// The refresh interval: the command line's, else the file's, else the
/// default; never below the minimum.
pub open spec fn refresh_interval(cli: Option<u64>, file: Option<u64>) -> u64 {
    let chosen = match first_present(cli, file) {
        Some(s) => s,
        None => default_refresh_secs(),
    };
    if chosen < min_refresh_secs() {
        min_refresh_secs()
    } else {
        chosen
    }
}

/// The refresh interval is never below the minimum, and is 15 seconds where
/// neither the command line nor the file gives one.
pub proof fn lemma_refresh_interval_bounds(cli: Option<u64>, file: Option<u64>)
    ensures
        refresh_interval(cli, file) >= min_refresh_secs(),
        refresh_interval(cli, file) >= 3,
        cli is None && file is None ==> refresh_interval(cli, file) == default_refresh_secs(),
        cli is None && file is None ==> refresh_interval(cli, file) == 15,
        cli matches Some(c) ==> refresh_interval(cli, file) == if c < 3 { 3 } else { c },
        cli is None ==> (file matches Some(f) ==> refresh_interval(cli, file) == if f < 3 {
            3
        } else {
            f
        }),
{
}

/// The first present value wins: `a` where it is there, else `b`.
pub proof fn lemma_first_present<T>(a: Option<T>, b: Option<T>)
    ensures
        a matches Some(x) ==> first_present(a, b) == Some(x),
        a is None ==> first_present(a, b) == b,
{
}

/// The text of the error for a missing API key.
pub open spec fn missing_api_key_text() -> Seq<char> {
    "no OpenAI API key found. Set OPENAI_API_KEY, pass --api-key, or add api_key to the config file"@
}

/// The file name of the config file in its directory.
pub open spec fn config_file_name() -> Seq<char> {
    "config.toml"@
}

/// The config file's path shown where the config directory is unknown.
pub open spec fn fallback_config_path() -> Seq<char> {
    "~/.config/omarchy-batch-monitor/config.toml"@
}

impl ConfigError {
    /// The error's message.
    pub fn message(&self) -> (r: String)
        ensures
            r@ == missing_api_key_text(),
    {
        String::from_str(
            "no OpenAI API key found. Set OPENAI_API_KEY, pass --api-key, or add api_key to the config file",
        )
    }
}

impl Config {
    /// Settings from the sources in their order of precedence: the API key
    /// from the command line, else the environment, else the file; the
    /// organization and the project from the environment, else the file; the
    /// refresh interval from the command line, else the file, else 15
    /// seconds, and at least 3.
    pub fn resolve(
        cli_api_key: Option<String>,
        cli_refresh_secs: Option<u64>,
        env_api_key: Option<String>,
        env_organization: Option<String>,
        env_project: Option<String>,
        file: FileConfig,
    ) -> (r: Result<Config, ConfigError>)
        ensures
            ({
                let key = first_present(first_present(cli_api_key, env_api_key), file.api_key);
                match r {
                    Ok(c) => {
                        &&& key == Some(c.api_key)
                        &&& c.organization == first_present(env_organization, file.organization)
                        &&& c.project == first_present(env_project, file.project)
                        &&& c.refresh_secs == refresh_interval(cli_refresh_secs, file.refresh_secs)
                    },
                    Err(e) => key is None && e == ConfigError::MissingApiKey,
                }
            }),
    {
        let api_key = match cli_api_key {
            Some(k) => k,
            None => match env_api_key {
                Some(k) => k,
                None => match file.api_key {
                    Some(k) => k,
                    None => {
                        return Err(ConfigError::MissingApiKey);
                    },
                },
            },
        };
        let organization = match env_organization {
            Some(o) => Some(o),
            None => file.organization,
        };
        let project = match env_project {
            Some(p) => Some(p),
            None => file.project,
        };
        let chosen = match cli_refresh_secs {
            Some(s) => s,
            None => match file.refresh_secs {
                Some(s) => s,
                None => 15,
            },
        };
        let refresh_secs = if chosen < 3 {
            3
        } else {
            chosen
        };
        Ok(Config { api_key, organization, project, refresh_secs })
    }

    /// The config file's path to show to the user: the path in the config
    /// directory (shown as text, with U+FFFD for bytes that are not UTF-8),
    /// or a fallback where that directory is unknown.
    pub fn example_path() -> (r: String)
        ensures
            r@ == fallback_config_path() || exists|dir: Seq<u8>, sep: u8|
                r@ == lossy_utf8(join_path_bytes(dir, sep, config_file_name_bytes())),
            config_file_name().is_suffix_of(r@),
    {
        let path = config_path();
        proof {
            if path is Some {
                let p = path->0;
                let (dir, sep) = choose|dir: Seq<u8>, sep: u8|
                    p@ == join_path_bytes(dir, sep, config_file_name_bytes());
                lemma_join_ends_with_name(dir, sep, config_file_name_bytes());
            }
        }
        example_path_from(path)
    }
}

/// The bytes of the config file's name.
pub open spec fn config_file_name_bytes() -> Seq<u8> {
    encode_utf8(config_file_name())
}

/// The path of file `name` in directory `dir`, as bytes, with `sep` the
/// platform's main separator: `Path::join` for a relative `name` (apart from
/// Windows drive prefixes), which puts one `sep` between them unless `dir` is
/// empty or already ends with a separator (`/`, or `sep`).
pub open spec fn join_path_bytes(dir: Seq<u8>, sep: u8, name: Seq<u8>) -> Seq<u8> {
    if dir.len() > 0 && dir.last() != 47u8 && dir.last() != sep {
        dir + seq![sep] + name
    } else {
        dir + name
    }
}

/// A joined path ends with the file name.
pub proof fn lemma_join_ends_with_name(dir: Seq<u8>, sep: u8, name: Seq<u8>)
    ensures
        name.is_suffix_of(join_path_bytes(dir, sep, name)),
{
    let p = join_path_bytes(dir, sep, name);
    assert(name =~= p.subrange((p.len() - name.len()) as int, p.len() as int));
}

/// The config file's path to show to the user, given the config file's path
/// `path` (as bytes) where the config directory is known: that path as text,
/// else the fallback.
pub fn example_path_from(path: Option<Vec<u8>>) -> (r: String)
    ensures
        r@ == match path {
            Some(p) => lossy_utf8(p@),
            None => fallback_config_path(),
        },
        match path {
            Some(p) => config_file_name_bytes().is_suffix_of(p@) ==> config_file_name().is_suffix_of(r@),
            None => config_file_name().is_suffix_of(r@),
        },
{
    proof {
        reveal_strlit("config.toml");
        reveal_strlit("~/.config/omarchy-batch-monitor/config.toml");
    }
    match path {
        Some(p) => {
            let r = string_from_utf8_lossy(p.as_slice());
            assert(config_file_name()[0] == 'c');
            r
        },
        None => {
            let r = String::from_str("~/.config/omarchy-batch-monitor/config.toml");
            assert(config_file_name() =~= r@.subrange(r@.len() - 11, r@.len() as int));
            r
        },
    }
}

/// The config file's path in the config directory `dir` (as bytes), if there
/// is one, with `sep` the platform's main path separator.
pub fn config_path_in(dir: Option<Vec<u8>>, sep: u8) -> (r: Option<Vec<u8>>)
    ensures
        match dir {
            Some(d) => r matches Some(p) && p@ == join_path_bytes(d@, sep, config_file_name_bytes()),
            None => r is None,
        },
{
    match dir {
        Some(d) => {
            let mut p = d;
            let n = p.len();
            if n > 0 && p[n - 1] != 47u8 && p[n - 1] != sep {
                p.push(sep);
            }
            let name = "config.toml".as_bytes();
            p.extend_from_slice(name);
            Some(p)
        },
        None => None,
    }
}

/// The config file's path, as bytes: `config.toml` in the monitor's config
/// directory (`None` where the platform gives no such directory).
pub fn config_path() -> (r: Option<Vec<u8>>)
    ensures
        r matches Some(p) ==> exists|dir: Seq<u8>, sep: u8|
            p@ == join_path_bytes(dir, sep, config_file_name_bytes()),
        r matches Some(p) ==> exists|dir: Seq<u8>, sep: u8|
            #![trigger join_path_bytes(dir, sep, config_file_name_bytes())]
            p@ == join_path_bytes(dir, sep, config_file_name_bytes()) && is_infix_of(
                encode_utf8(app_name()),
                dir,
            ),
{
    proof {
        reveal_strlit("omarchy-batch-monitor");
        assert(is_plain_app_name(app_name()));
    }
    let dir = project_config_dir("dev", "omarchy", "omarchy-batch-monitor");
    let sep = main_separator();
    config_path_in(dir, sep)
}

/// `name` is a plain application name: not empty, and made of lowercase ASCII
/// letters, digits and `-` only.
pub open spec fn is_plain_app_name(name: Seq<char>) -> bool {
    &&& name.len() > 0
    &&& forall|i: int|
        0 <= i < name.len() ==> {
            let c = #[trigger] name[i];
            ('a' <= c && c <= 'z') || ('0' <= c && c <= '9') || c == '-'
        }
}

/// `part` occurs in `whole` as a run of consecutive bytes.
pub open spec fn is_infix_of(part: Seq<u8>, whole: Seq<u8>) -> bool {
    exists|i: int|
        0 <= i && i + part.len() <= whole.len() && #[trigger] whole.subrange(i, i + part.len()) == part
}

/// The monitor's application name, under which its config directory is found.
pub open spec fn app_name() -> Seq<char> {
    "omarchy-batch-monitor"@
}

/// Wraps `directories::ProjectDirs::from` and `ProjectDirs::config_dir`: the
/// config directory of the project with the given qualifier, organization
/// and application name, as the bytes of the path (`OsStr::as_encoded_bytes`).
/// Which directory depends on the platform and the environment
/// (`$XDG_CONFIG_HOME`, `$HOME`) and is not stated. Stated: for a plain
/// application name, the directory's path holds that name. The crate joins
/// the application name (Linux: trimmed and lowercased, unchanged for a
/// plain name), the bundle id `qualifier.organization.application` (macOS:
/// spaces replaced, none in a plain name) or `organization\application\config`
/// (Windows) onto a base directory; on other targets it gives `None`.
#[verifier::external_body]
fn project_config_dir(qualifier: &str, organization: &str, application: &str) -> (r: Option<Vec<u8>>)
    ensures
        is_plain_app_name(application@) ==> (r matches Some(d) ==> is_infix_of(
            encode_utf8(application@),
            d@,
        )),
{
    match directories::ProjectDirs::from(qualifier, organization, application) {
        Some(dirs) => Some(dirs.config_dir().as_os_str().as_encoded_bytes().to_vec()),
        None => None,
    }
}

/// Reads `std::path::MAIN_SEPARATOR`, the platform's main path separator, as
/// a byte (`/` on Unix, `\` on Windows). It depends on the platform, so
/// nothing is stated of it.
#[verifier::external_body]
fn main_separator() -> (r: u8) {
    std::path::MAIN_SEPARATOR as u8
}

/// A name for what `String::from_utf8_lossy` makes of a byte sequence: its
/// text, with each invalid UTF-8 sequence replaced by U+FFFD.
pub uninterp spec fn lossy_utf8(bytes: Seq<u8>) -> Seq<char>;

/// Wraps `String::from_utf8_lossy`: the text of `bytes`, with U+FFFD for
/// invalid sequences. Stated: the result is the named text of the bytes; for
/// valid UTF-8 (where std documents that nothing is replaced) it is their
/// decoding; and where the bytes end with the encoding of a text that starts
/// with an ASCII character, the result ends with that text (an ASCII byte is
/// never part of an invalid sequence, so decoding starts afresh there).
#[verifier::external_body]
fn string_from_utf8_lossy(bytes: &[u8]) -> (r: String)
    ensures
        r@ == lossy_utf8(bytes@),
        valid_utf8(bytes@) ==> r@ == decode_utf8(bytes@),
        forall|s: Seq<char>|
            #![trigger encode_utf8(s)]
            s.len() > 0 && (s[0] as u32) < 128 && encode_utf8(s).is_suffix_of(bytes@)
                ==> s.is_suffix_of(r@),
{
    String::from_utf8_lossy(bytes).into_owned()
}

} // verus!

//! Hook rules and the local connection settings, as the rest of the library
//! sees them once the configuration files have been read.
use vstd::prelude::*;
use vstd::string::*;

verus! {

/// Kind of folder event a hook can be bound to.
#[derive(Clone, Copy, Debug, PartialEq, Eq, Hash, Structural)]
pub enum FolderEvent {
    /// A whole folder has been synced down
    FolderDownSyncDone,
    /// A file has been synced down
    FileDownSyncDone,
    /// A conflict has occured locally
    FileConflict,
    /// A conflict has occured remotely
    RemoteFileConflict,
}

/// Connection settings of the synchronisation service.
#[derive(Clone, Debug)]
pub struct Config {
    /// Base URL of the service's REST interface
    pub url: String,
    /// API key sent with every request
    pub api_key: String,
}

impl Config {
    /// Settings for a service whose GUI listens on `address` (`host:port`).
    pub fn from_gui(address: &str, api_key: String) -> (r: Config)
        ensures
            r.url@ == "http://"@ + address@,
            r.api_key == api_key,
    {
        Config { url: String::from_str("http://").concat(address), api_key }
    }
}

/// Why a hook rule was refused.
#[derive(Clone, Copy, Debug, PartialEq, Eq, Structural)]
pub enum ConfigError {
    /// The command is not a valid shell word list, or holds no word
    InvalidCommand,
    /// The filter is not a valid glob
    InvalidFilter,
}

/// Words of a shell-like command line as shlex splits them; `None` when the
/// line is malformed (unbalanced quotes, trailing escape).
pub uninterp spec fn shell_words(s: Seq<char>) -> Option<Seq<Seq<char>>>;

/// Relies on `shlex::split`: splits a command line into words as a POSIX
/// shell would, or returns `None` on a malformed line.
#[verifier::external_body]
fn split_command(s: &str) -> (r: Option<Vec<String>>)
    ensures
        match r {
            Some(v) => shell_words(s@) == Some(v@.map_values(|w: String| w@)),
            None => shell_words(s@) is None,
        },
{
    shlex::split(s)
}

/// Outcome of matching `path` against the glob `pattern`: `None` when the
/// pattern does not compile, else whether the path matches. With
/// `literal_separator`, wildcards do not match `/`.
pub uninterp spec fn glob_outcome(pattern: Seq<char>, literal_separator: bool, path: Seq<char>) -> Option<bool>;

/// Relies on globset's `GlobBuilder::new`, `literal_separator` and `build`,
/// then `GlobSetBuilder::add` and `build`, which compile the pattern and
/// report a failure as an error, and `GlobSet::is_match`. Whether a pattern
/// compiles does not depend on the path it is matched against.
#[verifier::external_body]
pub(crate) fn glob_match(pattern: &str, literal_separator: bool, path: &str) -> (r: Option<bool>)
    ensures
        r == glob_outcome(pattern@, literal_separator, path@),
        (r is Some) == (glob_outcome(pattern@, literal_separator, Seq::empty()) is Some),
{
    let glob = match globset::GlobBuilder::new(pattern).literal_separator(literal_separator).build() {
        Ok(g) => g,
        Err(_) => return None,
    };
    match globset::GlobSetBuilder::new().add(glob).build() {
        Ok(set) => Some(set.is_match(path)),
        Err(_) => None,
    }
}

/// The argument list a command line stands for: its shell words, when there
/// is at least one.
pub open spec fn command_words(s: Seq<char>) -> Option<Seq<Seq<char>>> {
    match shell_words(s) {
        Some(w) => if w.len() > 0 {
            Some(w)
        } else {
            None
        },
        None => None,
    }
}

/// A filter is accepted when it is absent or compiles as a glob in which
/// wildcards do not cross `/`.
pub open spec fn filter_compiles(filter: Option<String>) -> bool {
    match filter {
        Some(p) => glob_outcome(p@, true, Seq::empty()) is Some,
        None => true,
    }
}

/// Configuration of one folder hook.
#[derive(Clone, Debug)]
pub struct FolderHook {
    /// Absolute path of the folder
    pub folder: String,
    /// Event to hook
    pub event: FolderEvent,
    /// Glob that the path of a path-bearing event must match
    pub filter: Option<String>,
    /// Command and its arguments
    pub command: Vec<String>,
    /// Allow concurrent runs for the same hook
    pub allow_concurrent: Option<bool>,
}

/// Whether concurrent runs of the hook are allowed: off unless set.
pub open spec fn allows_concurrent(h: FolderHook) -> bool {
    match h.allow_concurrent {
        Some(b) => b,
        None => false,
    }
}

impl FolderHook {
    /// A hook rule from its configured fields; `command` is a shell-like
    /// command line.
    pub fn new(
        folder: String,
        event: FolderEvent,
        filter: Option<String>,
        command: &str,
        allow_concurrent: Option<bool>,
    ) -> (r: Result<FolderHook, ConfigError>)
        ensures
            command_words(command@) is None ==> r == Err::<FolderHook, ConfigError>(
                ConfigError::InvalidCommand,
            ),
            command_words(command@) is Some && !filter_compiles(filter) ==> r == Err::<
                FolderHook,
                ConfigError,
            >(ConfigError::InvalidFilter),
            command_words(command@) is Some && filter_compiles(filter) ==> r is Ok,
            r matches Ok(h) ==> {
                &&& h.folder == folder
                &&& h.event == event
                &&& h.filter == filter
                &&& h.allow_concurrent == allow_concurrent
                &&& command_words(command@) == Some(h.command@.map_values(|w: String| w@))
            },
    {
        let words = match split_command(command) {
            Some(w) => w,
            None => return Err(ConfigError::InvalidCommand),
        };
        if words.len() == 0 {
            return Err(ConfigError::InvalidCommand);
        }
        match &filter {
            Some(p) => {
                proof {
                    reveal_strlit("");
                    assert(""@ =~= Seq::<char>::empty());
                }
                if glob_match(p.as_str(), true, "").is_none() {
                    return Err(ConfigError::InvalidFilter);
                }
            },
            None => {},
        }
        Ok(FolderHook { folder, event, filter, command: words, allow_concurrent })
    }

    /// Whether concurrent runs of this hook are allowed.
    pub fn allows_concurrent(&self) -> (r: bool)
        ensures
            r == allows_concurrent(*self),
    {
        match self.allow_concurrent {
            Some(b) => b,
            None => false,
        }
    }
}

/// Folder hooks configuration.
#[derive(Clone, Debug)]
pub struct FolderConfig {
    /// Hooks, in configuration order
    pub hooks: Vec<FolderHook>,
}

} // verus!

//! The user's configuration and where it is kept.
//!
//! The configuration file is `imgen/config.json` under the directory for
//! configuration files: the one that `XDG_CONFIG_HOME` names, else
//! `.config` in the home directory.

use vstd::prelude::*;
use vstd::string::*;

verus! {

/// The user's configuration.
#[derive(Debug, Clone)]
pub struct Config {
    /// The user's API key.
    pub openai_api_key: Option<String>,
}

impl Default for Config {
    fn default() -> (config: Config)
        ensures
            config.openai_api_key is None,
    {
        Config { openai_api_key: None }
    }
}

/// What `std::path::Path::join` makes of a path and a component.
pub uninterp spec fn path_joined(base: Seq<char>, component: Seq<char>) -> Seq<char>;

/// Calls `std::path::Path::join`, which adjoins `component` to `base`. The
/// result hangs on the two alone and is named `path_joined`; joined from
/// strings, it is a string.
#[verifier::external_body]
fn join_path(base: &str, component: &str) -> (joined: String)
    ensures
        joined@ == path_joined(base@, component@),
{
    std::path::Path::new(base).join(component).to_string_lossy().into_owned()
}

/// The directory of the configuration file, given what the environment
/// holds for `XDG_CONFIG_HOME` and `HOME`.
pub open spec fn config_dir_of(
    xdg_config_home: Option<Seq<char>>,
    home: Option<Seq<char>>,
) -> Option<Seq<char>> {
    match xdg_config_home {
        Some(dir) => Some(path_joined(dir, "imgen"@)),
        None => match home {
            Some(home) => Some(path_joined(path_joined(home, ".config"@), "imgen"@)),
            None => None,
        },
    }
}

/// The path of the configuration file, given what the environment holds
/// for `XDG_CONFIG_HOME` and `HOME`.
pub open spec fn config_path_of(
    xdg_config_home: Option<Seq<char>>,
    home: Option<Seq<char>>,
) -> Option<Seq<char>> {
    match config_dir_of(xdg_config_home, home) {
        Some(dir) => Some(path_joined(dir, "config.json"@)),
        None => None,
    }
}

/// The view of an optional string slice.
pub open spec fn optional_str(value: Option<&str>) -> Option<Seq<char>> {
    match value {
        Some(value) => Some(value@),
        None => None,
    }
}

/// The directory of the configuration file. `xdg_config_home` and `home`
/// are the values of the environment variables of these names, where set.
pub fn config_dir(xdg_config_home: Option<&str>, home: Option<&str>) -> (dir: Option<String>)
    ensures
        crate::text::optional_view(dir) == config_dir_of(
            optional_str(xdg_config_home),
            optional_str(home),
        ),
{
    match xdg_config_home {
        Some(dir) => Some(join_path(dir, "imgen")),
        None => match home {
            Some(home) => {
                let base = join_path(home, ".config");
                Some(join_path(base.as_str(), "imgen"))
            },
            None => None,
        },
    }
}

/// The path of the configuration file. `xdg_config_home` and `home` are
/// the values of the environment variables of these names, where set.
pub fn config_path(xdg_config_home: Option<&str>, home: Option<&str>) -> (path: Option<String>)
    ensures
        crate::text::optional_view(path) == config_path_of(
            optional_str(xdg_config_home),
            optional_str(home),
        ),
{
    match config_dir(xdg_config_home, home) {
        Some(dir) => Some(join_path(dir.as_str(), "config.json")),
        None => None,
    }
}

} // verus!

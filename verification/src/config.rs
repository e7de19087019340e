//! Where the program keeps its files and which settings it takes from the
//! environment, decided from the values of the environment variables.
//! Reading the variables and touching the file system are left to the
//! caller.

use vstd::prelude::*;
use vstd::string::StringExecFns;
use crate::text::optional_text;

verus! {

/// The platforms that keep application files in places of their own.
#[derive(Clone, Copy, Debug, PartialEq, Eq, Structural)]
pub enum Platform {
    MacOs,
    Windows,
    Other,
}

/// The environment variables that the program reads; a variable that is
/// not set is `None`.
#[derive(Debug)]
pub struct Environment {
    pub xdg_config_home: Option<String>,
    pub xdg_data_home: Option<String>,
    pub xdg_state_home: Option<String>,
    pub home: Option<String>,
    pub user_profile: Option<String>,
    pub iac_openai_api_key: Option<String>,
    pub openai_api_key: Option<String>,
    pub iac_openai_model: Option<String>,
    pub openai_model: Option<String>,
    pub iac_openai_endpoint: Option<String>,
    pub openai_endpoint: Option<String>,
}

/// A directory, given as a base directory and a path below it.
#[derive(Debug)]
pub struct Location {
    pub base: String,
    pub relative: String,
}

/// Why no directory could be chosen.
#[derive(Clone, Copy, Debug, PartialEq, Eq, Structural)]
pub enum ConfigError {
    NoHomeDirectory,
}

/// The first of two optional values that is there.
pub open spec fn first_of(first: Option<Seq<char>>, second: Option<Seq<char>>) -> Option<
    Seq<char>,
> {
    match first {
        Some(value) => Some(value),
        None => second,
    }
}

/// The home directory: `HOME`, or else `USERPROFILE`.
pub open spec fn home_directory(env: Environment) -> Option<Seq<char>> {
    first_of(optional_text(env.home), optional_text(env.user_profile))
}

/// The path of the configuration directory below the home directory.
pub open spec fn config_path(platform: Platform) -> Seq<char> {
    match platform {
        Platform::MacOs => "Library/Application Support/iamcommitted"@,
        Platform::Windows => "AppData/Roaming/iamcommitted"@,
        Platform::Other => ".config/iamcommitted"@,
    }
}

/// The configuration directory as base and path: below `XDG_CONFIG_HOME`
/// where that is set, else below the home directory at the place of the
/// platform; `None` where neither is known.
pub open spec fn config_location(env: Environment, platform: Platform) -> Option<
    (Seq<char>, Seq<char>),
> {
    match env.xdg_config_home {
        Some(base) => Some((base@, "iamcommitted"@)),
        None => match home_directory(env) {
            Some(home) => Some((home, config_path(platform))),
            None => None,
        },
    }
}

/// The log directory as base and path: below `XDG_DATA_HOME` where that is
/// set; else, with a home directory, at the place of the platform, which
/// on other platforms than macOS and Windows lies below `XDG_STATE_HOME`
/// where that is set; `None` where neither `XDG_DATA_HOME` nor a home
/// directory is known.
pub open spec fn log_location(env: Environment, platform: Platform) -> Option<
    (Seq<char>, Seq<char>),
> {
    match env.xdg_data_home {
        Some(base) => Some((base@, "iamcommitted/logs"@)),
        None => match home_directory(env) {
            Some(home) => match platform {
                Platform::MacOs => Some((home, "Library/Logs/iamcommitted"@)),
                Platform::Windows => Some((home, "AppData/Local/iamcommitted/logs"@)),
                Platform::Other => match env.xdg_state_home {
                    Some(state) => Some((state@, "iamcommitted/logs"@)),
                    None => Some((home, ".local/state/iamcommitted/logs"@)),
                },
            },
            None => None,
        },
    }
}

/// The message of an error.
pub open spec fn error_text(error: ConfigError) -> Seq<char> {
    match error {
        ConfigError::NoHomeDirectory => "Failed to get home directory"@,
    }
}

impl ConfigError {
    /// The message of the error.
    pub fn message(&self) -> (s: &'static str)
        ensures
            s@ == error_text(*self),
    {
        match self {
            ConfigError::NoHomeDirectory => "Failed to get home directory",
        }
    }
}

/// A copy of the first of two optional texts that is there.
pub fn preferred(first: &Option<String>, second: &Option<String>) -> (r: Option<String>)
    ensures
        optional_text(r) == first_of(optional_text(*first), optional_text(*second)),
{
    match first {
        Some(value) => Some(value.clone()),
        None => match second {
            Some(value) => Some(value.clone()),
            None => None,
        },
    }
}

impl Location {
    fn below(base: &String, relative: &str) -> (r: Self)
        ensures
            r.base@ == base@,
            r.relative@ == relative@,
    {
        Location { base: base.clone(), relative: relative.to_owned() }
    }
}

impl Environment {
    /// The name of the log file in the log directory.
    pub fn log_file_name() -> (name: &'static str)
        ensures
            name@ == "chatgpt_interactions.log"@,
    {
        "chatgpt_interactions.log"
    }

    /// The API key: `IAC_OPENAI_API_KEY`, or else `OPENAI_API_KEY`.
    pub fn api_key(&self) -> (key: Option<String>)
        ensures
            optional_text(key) == first_of(
                optional_text(self.iac_openai_api_key),
                optional_text(self.openai_api_key),
            ),
    {
        preferred(&self.iac_openai_api_key, &self.openai_api_key)
    }

    /// The endpoint, if one is set: `IAC_OPENAI_ENDPOINT`, or else
    /// `OPENAI_ENDPOINT`.
    pub fn endpoint(&self) -> (endpoint: Option<String>)
        ensures
            optional_text(endpoint) == first_of(
                optional_text(self.iac_openai_endpoint),
                optional_text(self.openai_endpoint),
            ),
    {
        preferred(&self.iac_openai_endpoint, &self.openai_endpoint)
    }

    /// The model: `IAC_OPENAI_MODEL`, or else `OPENAI_MODEL`, or else
    /// `default`.
    pub fn model(&self, default: &str) -> (model: String)
        ensures
            model@ == match first_of(
                optional_text(self.iac_openai_model),
                optional_text(self.openai_model),
            ) {
                Some(name) => name,
                None => default@,
            },
    {
        match preferred(&self.iac_openai_model, &self.openai_model) {
            Some(name) => name,
            None => default.to_owned(),
        }
    }
}

/// The configuration of the program: the directory in which it keeps its
/// files.
#[derive(Debug)]
pub struct Config {
    config_dir: Location,
}

impl View for Config {
    type V = (Seq<char>, Seq<char>);

    /// The configuration directory, as base and path.
    closed spec fn view(&self) -> (Seq<char>, Seq<char>) {
        (self.config_dir.base@, self.config_dir.relative@)
    }
}

/// The path of the prompts file below the base of a configuration
/// directory whose own path is `relative`.
pub open spec fn prompts_file_path(relative: Seq<char>) -> Seq<char> {
    relative + "/"@ + "prompts.md"@
}

impl Config {
    /// The configuration for an environment: its directory is the one
    /// that `config_location` gives; without `XDG_CONFIG_HOME` and a home
    /// directory there is none.
    pub fn new(env: &Environment, platform: Platform) -> (r: Result<Self, ConfigError>)
        ensures
            match r {
                Ok(config) => config_location(*env, platform) == Some(config@),
                Err(e) => config_location(*env, platform) is None && e
                    == ConfigError::NoHomeDirectory,
            },
    {
        if let Some(base) = &env.xdg_config_home {
            return Ok(Config { config_dir: Location::below(base, "iamcommitted") });
        }
        let home = match preferred(&env.home, &env.user_profile) {
            Some(home) => home,
            None => {
                return Err(ConfigError::NoHomeDirectory);
            },
        };
        let relative = match platform {
            Platform::MacOs => "Library/Application Support/iamcommitted",
            Platform::Windows => "AppData/Roaming/iamcommitted",
            Platform::Other => ".config/iamcommitted",
        };
        Ok(Config { config_dir: Location::below(&home, relative) })
    }

    /// The configuration directory.
    pub fn config_dir(&self) -> (dir: &Location)
        ensures
            (dir.base@, dir.relative@) == self@,
    {
        &self.config_dir
    }

    /// The prompts file: `prompts.md` in the configuration directory.
    pub fn prompts_path(&self) -> (path: Location)
        ensures
            path.base@ == self@.0,
            path.relative@ == prompts_file_path(self@.1),
    {
        let relative = self.config_dir.relative.clone().concat("/").concat("prompts.md");
        Location { base: self.config_dir.base.clone(), relative }
    }

    /// The log directory for an environment, the one that `log_location`
    /// gives; without `XDG_DATA_HOME` and a home directory there is none.
    pub fn get_log_dir(env: &Environment, platform: Platform) -> (r: Result<
        Location,
        ConfigError,
    >)
        ensures
            match r {
                Ok(dir) => log_location(*env, platform) == Some((dir.base@, dir.relative@)),
                Err(e) => log_location(*env, platform) is None && e
                    == ConfigError::NoHomeDirectory,
            },
    {
        if let Some(base) = &env.xdg_data_home {
            return Ok(Location::below(base, "iamcommitted/logs"));
        }
        let home = match preferred(&env.home, &env.user_profile) {
            Some(home) => home,
            None => {
                return Err(ConfigError::NoHomeDirectory);
            },
        };
        match platform {
            Platform::MacOs => Ok(Location::below(&home, "Library/Logs/iamcommitted")),
            Platform::Windows => Ok(Location::below(&home, "AppData/Local/iamcommitted/logs")),
            Platform::Other => match &env.xdg_state_home {
                Some(state) => Ok(Location::below(state, "iamcommitted/logs")),
                None => Ok(Location::below(&home, ".local/state/iamcommitted/logs")),
            },
        }
    }
}

} // verus!

//! Settings of the tracker: defaults under the home directory, overridden by
//! the settings file, overridden in turn by the command line.

use crate::error::ConfigError;
use crate::path::{join, joined};
use vstd::prelude::*;
use vstd::string::*;

verus! {

/// The settings, as mathematical values.
pub struct ConfigView {
    pub interval_seconds: u64,
    pub jpeg_quality: u8,
    pub db_path: Seq<char>,
    pub images_dir: Seq<char>,
    pub pause_file: Seq<char>,
}

/// The settings of the tracker.
#[derive(Debug)]
pub struct Config {
    /// Seconds between two captures.
    pub interval_seconds: u64,
    /// JPEG quality, 0 to 100.
    pub jpeg_quality: u8,
    /// Where the event store lives.
    pub db_path: String,
    /// Directory under which screenshots are kept.
    pub images_dir: String,
    /// The marker whose presence pauses the tracker.
    pub pause_file: String,
}

impl View for Config {
    type V = ConfigView;

    open spec fn view(&self) -> ConfigView {
        ConfigView {
            interval_seconds: self.interval_seconds,
            jpeg_quality: self.jpeg_quality,
            db_path: self.db_path@,
            images_dir: self.images_dir@,
            pause_file: self.pause_file@,
        }
    }
}

impl Clone for Config {
    fn clone(&self) -> (copy: Config)
        ensures
            copy == *self,
    {
        Config {
            interval_seconds: self.interval_seconds,
            jpeg_quality: self.jpeg_quality,
            db_path: self.db_path.clone(),
            images_dir: self.images_dir.clone(),
            pause_file: self.pause_file.clone(),
        }
    }
}

/// What the settings file may set.
#[derive(Debug, Default)]
pub struct FileConfig {
    pub interval_seconds: Option<u64>,
    pub jpeg_quality: Option<u8>,
    pub db_path: Option<String>,
    pub images_dir: Option<String>,
    pub pause_file: Option<String>,
}

/// What the command line may set.
#[derive(Debug, Default)]
pub struct CliArgs {
    pub interval: Option<u64>,
    pub quality: Option<u8>,
}

/// The tracker's own directory under `home`.
pub open spec fn base_dir(home: Seq<char>) -> Seq<char> {
    joined(home, ".habit-tracker"@)
}

/// The settings of a user whose home directory is `home`, before any file
/// or command line is read.
pub open spec fn default_config(home: Seq<char>) -> ConfigView {
    ConfigView {
        interval_seconds: 60,
        jpeg_quality: 60,
        db_path: joined(base_dir(home), "tracker.db"@),
        images_dir: joined(base_dir(home), "images"@),
        pause_file: joined(base_dir(home), "pause"@),
    }
}

/// The home directory that is assumed where none is known: the current one.
pub open spec fn home_or_here(home: Option<String>) -> Seq<char> {
    match home {
        Some(dir) => dir@,
        None => "."@,
    }
}

/// `config` with what the settings file sets.
pub open spec fn merged_file(config: ConfigView, file: FileConfig) -> ConfigView {
    ConfigView {
        interval_seconds: match file.interval_seconds {
            Some(v) => v,
            None => config.interval_seconds,
        },
        jpeg_quality: match file.jpeg_quality {
            Some(v) => v,
            None => config.jpeg_quality,
        },
        db_path: match file.db_path {
            Some(v) => v@,
            None => config.db_path,
        },
        images_dir: match file.images_dir {
            Some(v) => v@,
            None => config.images_dir,
        },
        pause_file: match file.pause_file {
            Some(v) => v@,
            None => config.pause_file,
        },
    }
}

/// `config` with what the command line sets.
pub open spec fn merged_cli(config: ConfigView, args: CliArgs) -> ConfigView {
    ConfigView {
        interval_seconds: match args.interval {
            Some(v) => v,
            None => config.interval_seconds,
        },
        jpeg_quality: match args.quality {
            Some(v) => v,
            None => config.jpeg_quality,
        },
        ..config
    }
}

/// `config` with the settings file, if there is one, and then the command
/// line, laid over it.
pub open spec fn layered(config: ConfigView, file: Option<FileConfig>, args: CliArgs) -> ConfigView {
    match file {
        Some(f) => merged_cli(merged_file(config, f), args),
        None => merged_cli(config, args),
    }
}

/// Settings the tracker can run with: a positive interval and a quality of
/// at most 100.
pub open spec fn is_valid(config: ConfigView) -> bool {
    config.interval_seconds > 0 && config.jpeg_quality <= 100
}

/// The complaint about settings that are not valid.
pub open spec fn complaint(config: ConfigView) -> Seq<char> {
    if config.interval_seconds == 0 {
        "interval_seconds must be greater than 0"@
    } else {
        "jpeg_quality must be between 0 and 100"@
    }
}

/// What checking `config` gives: nothing for valid settings, else the
/// complaint as a `DirectoryCreationError`.
pub open spec fn is_verdict(config: ConfigView, result: Result<(), ConfigError>) -> bool {
    match result {
        Ok(()) => is_valid(config),
        Err(ConfigError::DirectoryCreationError(text)) => !is_valid(config) && text@ == complaint(
            config,
        ),
        Err(_) => false,
    }
}

/// What loading gives when the defaults are `base`: the layered settings
/// where they are valid, else the complaint about them.
pub open spec fn is_loaded(
    base: ConfigView,
    file: Option<FileConfig>,
    args: CliArgs,
    result: Result<Config, ConfigError>,
) -> bool {
    match result {
        Ok(config) => config@ == layered(base, file, args) && is_valid(config@),
        Err(ConfigError::DirectoryCreationError(text)) => !is_valid(layered(base, file, args))
            && text@ == complaint(layered(base, file, args)),
        Err(_) => false,
    }
}

/// The user's home directory as `dirs::home_dir` finds it in the
/// environment, as text. Nothing is claimed of it.
#[verifier::external_body]
fn home_dir() -> (home: Option<String>) {
    match dirs::home_dir() {
        Some(dir) => Some(dir.to_string_lossy().into_owned()),
        None => None,
    }
}

impl Default for Config {
    /// The defaults of the user whose home directory the environment names,
    /// or of the current directory where it names none.
    fn default() -> (config: Config)
        ensures
            exists|home: Seq<char>| config@ == default_config(home),
    {
        Config::with_home(home_dir())
    }
}

impl Config {
    /// The defaults of a user with the given home directory; without one,
    /// everything is kept under the current directory.
    pub fn with_home(home: Option<String>) -> (config: Config)
        ensures
            config@ == default_config(home_or_here(home)),
    {
        let base = match &home {
            Some(dir) => join(dir.as_str(), ".habit-tracker"),
            None => join(".", ".habit-tracker"),
        };
        Config {
            interval_seconds: 60,
            jpeg_quality: 60,
            db_path: join(base.as_str(), "tracker.db"),
            images_dir: join(base.as_str(), "images"),
            pause_file: join(base.as_str(), "pause"),
        }
    }

    /// Where the settings file of a user with the given home directory is.
    pub fn config_file_path_in(home: Option<String>) -> (path: String)
        ensures
            path@ == joined(base_dir(home_or_here(home)), "config.toml"@),
    {
        let base = match &home {
            Some(dir) => join(dir.as_str(), ".habit-tracker"),
            None => join(".", ".habit-tracker"),
        };
        join(base.as_str(), "config.toml")
    }

    /// Where the settings file is: under the home directory that the
    /// environment names.
    pub fn config_file_path(&self) -> (path: String)
        ensures
            exists|home: Seq<char>| path@ == joined(base_dir(home), "config.toml"@),
    {
        Config::config_file_path_in(home_dir())
    }

    /// Lays the settings file over these settings.
    pub fn merge_file_config(&mut self, file_config: &FileConfig)
        ensures
            final(self)@ == merged_file(old(self)@, *file_config),
    {
        if let Some(interval) = file_config.interval_seconds {
            self.interval_seconds = interval;
        }
        if let Some(quality) = file_config.jpeg_quality {
            self.jpeg_quality = quality;
        }
        if let Some(path) = &file_config.db_path {
            self.db_path = path.clone();
        }
        if let Some(path) = &file_config.images_dir {
            self.images_dir = path.clone();
        }
        if let Some(path) = &file_config.pause_file {
            self.pause_file = path.clone();
        }
    }

    /// Lays the command line over these settings.
    pub fn merge_cli_args(&mut self, cli_args: &CliArgs)
        ensures
            final(self)@ == merged_cli(old(self)@, *cli_args),
    {
        if let Some(interval) = cli_args.interval {
            self.interval_seconds = interval;
        }
        if let Some(quality) = cli_args.quality {
            self.jpeg_quality = quality;
        }
    }

    /// Checks that the tracker can run with these settings.
    pub fn validate(&self) -> (result: Result<(), ConfigError>)
        ensures
            is_verdict(self@, result),
    {
        if self.interval_seconds == 0 {
            return Err(
                ConfigError::DirectoryCreationError(
                    String::from_str("interval_seconds must be greater than 0"),
                ),
            );
        }
        if self.jpeg_quality > 100 {
            return Err(
                ConfigError::DirectoryCreationError(
                    String::from_str("jpeg_quality must be between 0 and 100"),
                ),
            );
        }
        Ok(())
    }

    /// Lays the settings file, if there is one, and the command line over
    /// `base`, and checks the outcome.
    pub fn load_over(base: Config, cli_args: &CliArgs, file_config: Option<&FileConfig>) -> (result:
        Result<Config, ConfigError>)
        ensures
            is_loaded(
                base@,
                match file_config {
                    Some(f) => Some(*f),
                    None => None,
                },
                *cli_args,
                result,
            ),
    {
        let mut config = base;
        if let Some(file) = file_config {
            config.merge_file_config(file);
        }
        config.merge_cli_args(cli_args);
        match config.validate() {
            Ok(()) => Ok(config),
            Err(e) => Err(e),
        }
    }

    /// The settings in force: the defaults under the home directory that
    /// the environment names, with the settings file, if there is one, and
    /// the command line laid over them. Invalid settings are refused.
    pub fn load(cli_args: &CliArgs, file_config: Option<&FileConfig>) -> (result: Result<
        Config,
        ConfigError,
    >)
        ensures
            exists|home: Seq<char>|
                is_loaded(
                    default_config(home),
                    match file_config {
                        Some(f) => Some(*f),
                        None => None,
                    },
                    *cli_args,
                    result,
                ),
    {
        let base = Config::default();
        let ghost home = choose|home: Seq<char>| base@ == default_config(home);
        let result = Config::load_over(base, cli_args, file_config);
        assert(is_loaded(
            default_config(home),
            match file_config {
                Some(f) => Some(*f),
                None => None,
            },
            *cli_args,
            result,
        ));
        result
    }
}

} // verus!

//! The default logging configuration offered to users.
use vstd::prelude::*;

verus! {

/// File name of the logging configuration, under the tool's configuration directory.
pub const LOGGING_CONFIG_FILE: &'static str = "logging.yaml";

/// Default log file path.
pub const DEFAULT_LOG_FILE: &'static str = "/tmp/ppt_rust_debug.log";

/// The default logging configuration, as YAML.
pub const DEFAULT_CONFIG_YAML: &'static str = r#"# Transcribe-RS Logging Configuration
#
# Log levels (from most to least verbose): trace, debug, info, warn, error, off
#
# Customize per-module log levels in the 'loggers' section below.
# Module names follow the Rust module path (e.g., transcribe_rs::groq)

appenders:
  file:
    kind: file
    path: "/tmp/ppt_rust_debug.log"
    encoder:
      pattern: "[{d(%Y-%m-%d %H:%M:%S%.3f)}] [{l}] [{M}] {m}{n}"

# Root logger - default level for all modules not explicitly configured
root:
  level: info
  appenders:
    - file

# Per-module log level configuration
loggers:
  # CLI and daemon modules
  transcribe_rs::groq:
    level: debug
  transcribe_rs::recording:
    level: debug
  transcribe_rs::clipboard:
    level: debug
  transcribe_rs::paste:
    level: debug
  transcribe_rs::tools:
    level: debug
  transcribe_rs::conversation_history:
    level: debug

  # Engine modules (can be noisy at trace level)
  transcribe_rs::engines::parakeet:
    level: info
  transcribe_rs::engines::parakeet::model:
    level: info

  # Recording daemon (separate binary)
  recording_daemon:
    level: debug

  # CLI binary
  cli:
    level: debug

  # Transcription daemon
  transcribe_daemon:
    level: info
"#;

/// The logging configuration file: `transcribe-rs/logging.yaml` under the user's configuration
/// directory; `None` when that directory cannot be determined.
pub fn get_config_path() -> (r: Option<String>)
    ensures
        r matches Some(p) ==> exists|base: Seq<char>| p@ == crate::paths::path_join(
            crate::paths::path_join(base, "transcribe-rs"@),
            LOGGING_CONFIG_FILE@,
        ),
{
    match crate::config::config_dir() {
        Some(base) => {
            let tool = crate::paths::join_path(base.as_str(), "transcribe-rs");
            Some(crate::paths::join_path(tool.as_str(), LOGGING_CONFIG_FILE))
        },
        None => None,
    }
}

/// Get the default logging configuration as a YAML string.
///
/// This can be used to create an initial config file for users to customize.
pub fn default_config_yaml() -> (r: &'static str)
    ensures
        r@ == DEFAULT_CONFIG_YAML@,
{
    DEFAULT_CONFIG_YAML
}

} // verus!

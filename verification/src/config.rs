//! Where Vicuna keeps its files, and which Ollama server it talks to.
use vstd::prelude::*;

use crate::text::copy_string;

verus! {

/// Paths and the server address.
#[derive(Debug, Clone, PartialEq)]
pub struct Config {
    pub _config_dir: String,
    pub _data_dir: String,
    pub log_dir: String,
    pub db_path: String,
    pub ollama_url: String,
}

/// Why no configuration could be made.
#[derive(Debug, Clone, Copy, PartialEq, Eq)]
pub enum ConfigError {
    /// The platform gave no configuration directory.
    NoConfigDir,
}

impl ConfigError {
    /// The message shown for this error.
    pub fn message(&self) -> (r: &'static str)
        ensures
            r@ == "Could not determine config directory"@,
    {
        "Could not determine config directory"
    }
}

/// `name` placed inside directory `dir`, as `Path::join` does on Unix for a
/// relative `name`.
pub open spec fn join_path(dir: Seq<char>, name: Seq<char>) -> Seq<char> {
    if dir.len() == 0 || dir.last() == '/' {
        dir + name
    } else {
        dir + seq!['/'] + name
    }
}

fn join(dir: &String, name: &str) -> (r: String)
    ensures
        r@ == join_path(dir@, name@),
{
    let mut r = copy_string(dir);
    let n = dir.as_str().unicode_len();
    if n > 0 && dir.as_str().get_char(n - 1) != '/' {
        r.append("/");
        proof {
            reveal_strlit("/");
        }
    }
    r.append(name);
    proof {
        reveal_strlit("/");
    }
    r
}

/// The server used when `OLLAMA_HOST` is not set.
pub open spec fn default_ollama_url() -> Seq<char> {
    "http://localhost:11434"@
}

impl Config {
    /// The configuration for the given platform directories (configuration,
    /// data) and the value of `OLLAMA_HOST`: logs go to `logs` and the
    /// database to `vicuna.db` inside the configuration directory; without
    /// `OLLAMA_HOST` the local default server is used. Without platform
    /// directories there is no configuration.
    pub fn new(dirs: Option<(String, String)>, ollama_host: Option<String>) -> (r: Result<
        Config,
        ConfigError,
    >)
        ensures
            dirs is None ==> r == Err::<Config, ConfigError>(ConfigError::NoConfigDir),
            dirs matches Some((c, d)) ==> r matches Ok(cfg) && cfg._config_dir@ == c@
                && cfg._data_dir@ == d@ && cfg.log_dir@ == join_path(c@, "logs"@) && cfg.db_path@
                == join_path(c@, "vicuna.db"@) && cfg.ollama_url@ == (match ollama_host {
                Some(h) => h@,
                None => default_ollama_url(),
            }),
    {
        match dirs {
            None => Err(ConfigError::NoConfigDir),
            Some((config_dir, data_dir)) => {
                let log_dir = join(&config_dir, "logs");
                let db_path = join(&config_dir, "vicuna.db");
                let ollama_url = match ollama_host {
                    Some(h) => h,
                    None => String::from_str("http://localhost:11434"),
                };
                Ok(Config { _config_dir: config_dir, _data_dir: data_dir, log_dir, db_path, ollama_url })
            },
        }
    }
}

} // verus!

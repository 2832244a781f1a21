//! The command line: its options and subcommands as plain values, and how
//! the settings are resolved from them, the environment and defaults. The
//! caller reads the environment and hands the values in.

use vstd::prelude::*;
use crate::text::{chars_of, str_eq};

verus! {

/// The command-line options.
#[derive(Debug, Clone)]
pub struct Cli {
    pub data_dir: Option<String>,
    pub project_scoped: bool,
    pub project: Option<String>,
    pub db_key: Option<String>,
    pub embedder: Option<String>,
    pub embed_model: Option<String>,
    pub embed_url: Option<String>,
    pub vector_index: Option<String>,
    pub command: Option<Command>,
}

/// The subcommands; without one the tool server runs on stdio.
#[derive(Debug, Clone)]
pub enum Command {
    Serve { port: u16, host: String },
    Tui,
    Sync { action: SyncAction },
    Embed { backfill: bool, rebuild_index: bool },
}

/// What `sync` does.
#[derive(Debug, Clone)]
pub enum SyncAction {
    Export { dir: String },
    Import { dir: String },
}

/// Which embedder to build.
#[derive(Debug, Clone)]
pub enum EmbedderConfig {
    Hash { dim: usize },
    Ollama { url: String, model: String },
}

/// The first present value.
pub open spec fn first_of(a: Option<String>, b: Option<String>) -> Option<String> {
    match a {
        Some(x) => Some(x),
        None => b,
    }
}

/// A path under `base`: `part` after a `/` (none is added after an empty
/// base or one that already ends in `/`).
pub open spec fn spec_path_join(base: Seq<char>, part: Seq<char>) -> Seq<char> {
    if base.len() == 0 {
        part
    } else if base.last() == '/' {
        base + part
    } else {
        base + seq!['/'] + part
    }
}

/// `part` joined under `base`.
pub fn path_join(base: &str, part: &str) -> (r: String)
    ensures
        r@ == spec_path_join(base@, part@),
{
    let b = chars_of(base);
    let mut out = String::from_str(base);
    if b.len() > 0 && b[b.len() - 1] != '/' {
        out.push('/');
    }
    out.append(part);
    proof {
        if base@.len() == 0 {
            assert(out@ =~= part@);
        }
    }
    out
}

/// The data directory: `--data-dir`, else `env_data_dir` (IGRIS_DATA_DIR),
/// else `.igris` under `home` (or under the current directory).
pub open spec fn spec_data_dir(cli: Cli, env_data_dir: Option<String>, home: Option<String>) -> Seq<char> {
    match first_of(cli.data_dir, env_data_dir) {
        Some(d) => d@,
        None => spec_path_join(
            match home {
                Some(h) => h@,
                None => "."@,
            },
            ".igris"@,
        ),
    }
}

/// The database file: `memory.db` in the data directory, or, with
/// `--project-scoped`, in `projects/<name>` under it, where the name is
/// `--project`, else that of the working directory, else `default`.
pub open spec fn spec_db_path(cli: Cli, data_dir: Seq<char>, cwd_name: Option<String>) -> Seq<char> {
    if cli.project_scoped {
        let name = match first_of(cli.project, cwd_name) {
            Some(n) => n@,
            None => "default"@,
        };
        spec_path_join(spec_path_join(spec_path_join(data_dir, "projects"@), name), "memory.db"@)
    } else {
        spec_path_join(data_dir, "memory.db"@)
    }
}

/// The embedder selected by `kind` (`--embedder`, else IGRIS_EMBEDDER):
/// `hash` with 256 buckets, `ollama` with the model and URL from the
/// options, the environment or the defaults; anything else (or nothing)
/// selects none.
pub open spec fn spec_embedder(
    cli: Cli,
    env_embedder: Option<String>,
    env_model: Option<String>,
    env_url: Option<String>,
    r: Option<EmbedderConfig>,
) -> bool {
    let kind = first_of(cli.embedder, env_embedder);
    if kind matches Some(k) && k@ == "hash"@ {
        r matches Some(EmbedderConfig::Hash { dim }) && dim == 256
    } else if kind matches Some(k) && k@ == "ollama"@ {
        r matches Some(EmbedderConfig::Ollama { url, model }) && model@ == (match first_of(cli.embed_model, env_model) {
            Some(m) => m@,
            None => "nomic-embed-text"@,
        }) && url@ == (match first_of(cli.embed_url, env_url) {
            Some(u) => u@,
            None => "http://localhost:11434"@,
        })
    } else {
        r is None
    }
}

/// The value of an option, else of its environment variable.
fn option_or_env(opt: &Option<String>, env: Option<String>) -> (r: Option<String>)
    ensures
        r is Some <==> first_of(*opt, env) is Some,
        r matches Some(x) ==> x@ == first_of(*opt, env)->0@,
{
    match opt {
        Some(x) => Some(x.clone()),
        None => env,
    }
}

impl Cli {
    /// The data directory (see `spec_data_dir`).
    pub fn resolve_data_dir(&self, env_data_dir: Option<String>, home: Option<String>) -> (r: String)
        ensures
            r@ == spec_data_dir(*self, env_data_dir, home),
    {
        match option_or_env(&self.data_dir, env_data_dir) {
            Some(d) => d,
            None => {
                let base = match home {
                    Some(h) => h,
                    None => String::from_str("."),
                };
                path_join(base.as_str(), ".igris")
            },
        }
    }

    /// The database file under `data_dir` (see `spec_db_path`);
    /// `cwd_name` is the name of the working directory, if it has one.
    pub fn resolve_db_path(&self, data_dir: &str, cwd_name: Option<String>) -> (r: String)
        ensures
            r@ == spec_db_path(*self, data_dir@, cwd_name),
    {
        if self.project_scoped {
            let name = match option_or_env(&self.project, cwd_name) {
                Some(n) => n,
                None => String::from_str("default"),
            };
            let projects = path_join(data_dir, "projects");
            let dir = path_join(projects.as_str(), name.as_str());
            path_join(dir.as_str(), "memory.db")
        } else {
            path_join(data_dir, "memory.db")
        }
    }

    /// The encryption key: `--db-key`, else `env_key` (IGRIS_DB_KEY).
    pub fn resolve_db_key(&self, env_key: Option<String>) -> (r: Option<String>)
        ensures
            r is Some <==> first_of(self.db_key, env_key) is Some,
            r matches Some(k) ==> k@ == first_of(self.db_key, env_key)->0@,
    {
        option_or_env(&self.db_key, env_key)
    }

    /// The embedder to build (see `spec_embedder`).
    pub fn embedder_config(
        &self,
        env_embedder: Option<String>,
        env_model: Option<String>,
        env_url: Option<String>,
    ) -> (r: Option<EmbedderConfig>)
        ensures
            spec_embedder(*self, env_embedder, env_model, env_url, r),
    {
        let kind = option_or_env(&self.embedder, env_embedder);
        let is_hash = match &kind {
            Some(k) => str_eq(k.as_str(), "hash"),
            None => false,
        };
        let is_ollama = match &kind {
            Some(k) => str_eq(k.as_str(), "ollama"),
            None => false,
        };
        if is_hash {
            Some(EmbedderConfig::Hash { dim: 256 })
        } else if is_ollama {
            let model = match option_or_env(&self.embed_model, env_model) {
                Some(m) => m,
                None => String::from_str("nomic-embed-text"),
            };
            let url = match option_or_env(&self.embed_url, env_url) {
                Some(u) => u,
                None => String::from_str("http://localhost:11434"),
            };
            Some(EmbedderConfig::Ollama { url, model })
        } else {
            None
        }
    }

    /// Whether the vector index backend is selected: `--vector-index`,
    /// else `env_backend` (IGRIS_VECTOR_INDEX), is `vec` (the default is
    /// brute force).
    pub fn vector_index_enabled(&self, env_backend: Option<String>) -> (r: bool)
        ensures
            r == (first_of(self.vector_index, env_backend) matches Some(v) && v@ == "vec"@),
    {
        match option_or_env(&self.vector_index, env_backend) {
            Some(v) => str_eq(v.as_str(), "vec"),
            None => false,
        }
    }
}

/// Whether `embed --rebuild-index` rebuilds the vector index: only when it
/// was asked for and the vector index backend is in use.
pub fn should_rebuild_index(rebuild_index: bool, vector_index_enabled: bool) -> (r: bool)
    ensures
        r == (rebuild_index && vector_index_enabled),
{
    rebuild_index && vector_index_enabled
}

} // verus!

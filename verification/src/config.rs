//! Settings of the listener and their defaults.

use vstd::prelude::*;
use crate::text::texts;

verus! {

/// Settings of the replication stream.
#[derive(Debug, Clone)]
pub struct ReplicationConfig {
    /// Slot name for logical replication.
    pub slot_name: String,
    /// Publication name.
    pub publication_name: String,
    /// Number of messages processed in one batch.
    pub batch_size: usize,
    /// Timeout for receiving messages, in seconds.
    pub receive_timeout: u64,
}

/// Which schemas and tables are watched.
#[derive(Debug, Clone)]
pub struct SchemaFilterConfig {
    /// Schemas to include; all where empty.
    pub include_schemas: Vec<String>,
    /// Schemas to exclude.
    pub exclude_schemas: Vec<String>,
    /// Tables to include; all where empty.
    pub include_tables: Vec<String>,
    /// Tables to exclude.
    pub exclude_tables: Vec<String>,
}

/// All settings.
#[derive(Debug, Clone)]
pub struct Config {
    /// Connection URL of the database.
    pub database_url: String,
    /// Directory that generated migrations are written to.
    pub output_dir: String,
    pub replication: ReplicationConfig,
    pub schema_filter: SchemaFilterConfig,
}

/// Why settings were refused.
#[derive(Debug, Clone, Copy, PartialEq, Eq, Structural)]
pub enum ConfigError {
    /// No database URL was supplied.
    DatabaseUrlNotSet,
    /// The database URL is empty.
    DatabaseUrlRequired,
}

impl ConfigError {
    /// The error in words.
    pub fn message(&self) -> (r: &'static str)
        ensures
            r@ == match *self {
                ConfigError::DatabaseUrlNotSet => "DATABASE_URL environment variable not set"@,
                ConfigError::DatabaseUrlRequired => "database_url is required"@,
            },
    {
        match self {
            ConfigError::DatabaseUrlNotSet => "DATABASE_URL environment variable not set",
            ConfigError::DatabaseUrlRequired => "database_url is required",
        }
    }
}

impl Default for ReplicationConfig {
    fn default() -> (r: ReplicationConfig)
        ensures
            r.slot_name@ == "repligrate_slot"@,
            r.publication_name@ == "repligrate_pub"@,
            r.batch_size == 1000,
            r.receive_timeout == 30,
    {
        ReplicationConfig {
            slot_name: "repligrate_slot".to_owned(),
            publication_name: "repligrate_pub".to_owned(),
            batch_size: 1000,
            receive_timeout: 30,
        }
    }
}

impl Default for SchemaFilterConfig {
    fn default() -> (r: SchemaFilterConfig)
        ensures
            r.include_schemas@.len() == 0,
            texts(r.exclude_schemas@) == seq!["pg_catalog"@, "information_schema"@],
            r.include_tables@.len() == 0,
            r.exclude_tables@.len() == 0,
    {
        let mut exclude_schemas: Vec<String> = Vec::new();
        exclude_schemas.push("pg_catalog".to_owned());
        exclude_schemas.push("information_schema".to_owned());
        assert(texts(exclude_schemas@) =~= seq!["pg_catalog"@, "information_schema"@]);
        SchemaFilterConfig {
            include_schemas: Vec::new(),
            exclude_schemas,
            include_tables: Vec::new(),
            exclude_tables: Vec::new(),
        }
    }
}

/// The settings that hold where only the database URL and the output
/// directory are given.
pub open spec fn is_basic_config(c: Config, database_url: Seq<char>, output_dir: Seq<char>) -> bool {
    &&& c.database_url@ == database_url
    &&& c.output_dir@ == output_dir
    &&& c.replication.slot_name@ == "repligrate_slot"@
    &&& c.replication.publication_name@ == "repligrate_pub"@
    &&& c.replication.batch_size == 1000
    &&& c.replication.receive_timeout == 30
    &&& c.schema_filter.include_schemas@.len() == 0
    &&& texts(c.schema_filter.exclude_schemas@) == seq!["pg_catalog"@, "information_schema"@]
    &&& c.schema_filter.include_tables@.len() == 0
    &&& c.schema_filter.exclude_tables@.len() == 0
}

impl Default for Config {
    fn default() -> (r: Config)
        ensures
            is_basic_config(r, Seq::empty(), "./migrations"@),
    {
        Config {
            database_url: String::new(),
            output_dir: "./migrations".to_owned(),
            replication: ReplicationConfig::default(),
            schema_filter: SchemaFilterConfig::default(),
        }
    }
}

impl Config {
    /// The settings for a database URL and an output directory as the
    /// environment gives them: the URL is required, the directory is
    /// `./migrations` where none is given, everything else is the default.
    pub fn from_env_values(database_url: Option<String>, output_dir: Option<String>) -> (r: Result<
        Config,
        ConfigError,
    >)
        ensures
            match (database_url, r) {
                (Some(url), Ok(c)) => is_basic_config(
                    c,
                    url@,
                    match output_dir {
                        Some(d) => d@,
                        None => "./migrations"@,
                    },
                ),
                (None, Err(e)) => e == ConfigError::DatabaseUrlNotSet,
                _ => false,
            },
    {
        match database_url {
            Some(url) => {
                let dir = match output_dir {
                    Some(d) => d,
                    None => "./migrations".to_owned(),
                };
                Ok(
                    Config {
                        database_url: url,
                        output_dir: dir,
                        replication: ReplicationConfig::default(),
                        schema_filter: SchemaFilterConfig::default(),
                    },
                )
            },
            None => Err(ConfigError::DatabaseUrlNotSet),
        }
    }

    /// Checks the settings: the database URL must not be empty.
    pub fn validate(&self) -> (r: Result<(), ConfigError>)
        ensures
            self.database_url@.len() > 0 ==> r is Ok,
            self.database_url@.len() == 0 ==> r == Err::<(), ConfigError>(
                ConfigError::DatabaseUrlRequired,
            ),
    {
        if self.database_url.as_str().unicode_len() == 0 {
            Err(ConfigError::DatabaseUrlRequired)
        } else {
            Ok(())
        }
    }
}

} // verus!

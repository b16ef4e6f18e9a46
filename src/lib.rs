//! Model execution abstraction layer: configuration, driver selection and the
//! token-framing protocol that runs between a caller and an inference backend.

pub mod config;
pub mod dal;
pub mod framing;
pub mod meal;
pub mod migrations;
pub mod params;
pub mod repl;
pub mod text;

pub use config::{Category, ConfigError, DriverKind, MEALArgs};
pub use dal::{assemble_model, require_models, DALArgs, DatabaseDriver, SurrealDriver, DAL};
pub use framing::{Ending, Failure, Output, Phase, Relay, Tokens};
pub use meal::{
    driver_kind, Driver, Launch, LocalDriver, MEAL, RemoteTarget, SSHDriver, SessionAction,
    SessionEvent, SessionSetup, SpawnError, Stage,
};
pub use migrations::{
    parse_migration_name, plan_migrations, record_statement, Migration, MigrationPattern,
};
pub use params::ParamMap;
pub use repl::{respond_words, CliReplManager, CommandName, Reply};
pub use text::{chars_of, string_of};

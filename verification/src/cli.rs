//! The commands and flags of the command line.
use vstd::prelude::*;

verus! {

/// The parsed command line.
pub struct Cli {
    pub command: Commands,
}

/// The top-level commands.
pub enum Commands {
    /// Create a new Axum project.
    New {
        /// Project name (snake_case recommended).
        name: String,
        /// Include database support (SQLx + PostgreSQL).
        with_db: bool,
        /// Include Redis support.
        with_redis: bool,
        /// Place infrastructure inside shared/ instead of a separate infra/ directory.
        infra_as_shared: bool,
    },
    /// Generate project components.
    Generate { component: GenerateCommands },
}

/// The components that `generate` adds.
pub enum GenerateCommands {
    /// A new module with repository, service, controller, dto, and schema.
    Module {
        /// Module name (snake_case).
        name: String,
        /// Skip repository generation.
        no_repo: bool,
        /// Skip service generation.
        no_service: bool,
        /// Skip controller generation.
        no_controller: bool,
        /// Skip DTO generation.
        no_dto: bool,
        /// Skip schema generation.
        no_schema: bool,
    },
    /// A controller in an existing module (path: module_name/controller_name).
    Controller { path: String },
    /// A service in an existing module (path: module_name/service_name).
    Service { path: String },
}

} // verus!

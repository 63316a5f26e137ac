pub mod content;
pub mod context;
pub mod context_source;
pub mod context_strategy;
pub mod data;
pub mod encoding;
pub mod error;
pub mod execution_contracts;
pub mod hook;
pub mod inspection;
pub mod interruption;
pub mod json;
pub mod json_schema;
pub mod model;
pub mod model_catalog;
pub mod model_dispatch;
pub mod model_execution;
pub mod model_options;
pub mod model_routing;
pub mod prepared_step;
pub mod profile;
pub mod prompt;
pub mod provider_tool_schema;
pub mod reader;
pub mod recovery;
pub mod refs;
pub mod resolution;
pub mod run;
pub mod serialization;
pub mod skills;
pub mod state;
pub mod table;
pub mod text;
pub mod verification;

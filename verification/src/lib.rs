//! Decision logic for repairing the visibility of Codex session history.
pub mod text;
pub mod workspace_path;
pub mod modes;
pub mod selection;
pub mod order;
pub mod messages;
pub mod run;
pub mod providers;
pub mod requests;
pub mod threads_sql;
pub mod timestamps;
pub mod session_index;
pub mod paths;
pub mod backups;
pub mod json;
pub mod rollout;
pub mod facts;
pub mod catalog;
pub mod global_state;
pub mod referenced;
pub mod index_entries;
pub mod instance_commands;

//! Agents: the registry that holds them, their default configurations and
//! the decisions each agent makes about its messages.

pub mod archive;
pub mod balena;
pub mod browser;
pub mod git;
pub mod greeter;
pub mod haiku;
pub mod project_init;
pub mod registry;
pub mod user_agent;

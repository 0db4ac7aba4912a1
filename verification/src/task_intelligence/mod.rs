//! Task intelligence: dependency graphs, keyword features, dependency rules
//! and task decomposition.

pub mod dependency_graph;
pub mod features;
pub mod decomposer;
pub mod dependency_rules;
pub mod dependency_learning;
pub mod smart_todo;
pub mod time_estimate;

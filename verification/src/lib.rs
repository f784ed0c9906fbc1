//! Names, payloads and the bookkeeping of a small node scheduler.
pub mod outside;
pub mod name_rule;
pub mod registry;
pub mod queue;
pub mod payload;
pub mod core_node;
pub mod local_single_scheduler;
pub mod node;
pub mod simple_scheduler;
pub mod component;
pub mod scheduler;
pub mod mqtt_scheduler;
pub mod mqtt_distributed_scheduler;

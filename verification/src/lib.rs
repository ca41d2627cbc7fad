//! Decision logic of an ACP agent: forking a session at an earlier user
//! message, starting the agent, and running the memory worker.

pub mod anchor_laws;
pub mod contextual;
pub mod fork;
pub mod fork_error;
pub mod fork_laws;
pub mod home;
pub mod home_mutexes;
pub mod memory_laws;
pub mod memory_worker;
pub mod message_laws;
pub mod report;
pub mod rollout;
pub mod startup;
pub mod text;


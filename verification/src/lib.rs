//! Orchestration of machine-learning graphs.
//!
//! A Sun is a static, port-aware, acyclic graph of nodes that exchange
//! artifacts through mailboxes in void storage. This crate holds everything
//! that is decided on the way and proves it: how a graph is registered and
//! validated ([`compile`], [`topology`]), which node may run next and where
//! its output goes ([`forward`], [`programs::two_sided_zo`]), how a chain of
//! stages is trained with one forward and one backward in turn
//! ([`programs::pipeline_backward`]), and what every node does with what it
//! receives ([`nodes`]).
//!
//! Work outside the process is never done here. An action says what it needs
//! (`emit`, `plan`, `begin`) and takes what came of it (`absorb`, `received`,
//! `advance`). Where fresh identifiers are needed, a function that takes them
//! stands beside the one that draws them.

pub mod animal;
pub mod collections;
pub mod compile;
pub mod contract;
pub mod counting;
pub mod error;
pub mod failure;
pub mod forward;
pub mod ids;
pub mod mailbox;
pub mod message;
pub mod model_config;
pub mod nodes;
pub mod ops;
pub mod programs;
pub mod ray;
pub mod sun;
pub mod text;
pub mod topology;

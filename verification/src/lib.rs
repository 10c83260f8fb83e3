//! Generation of a typed client module from annotated service classes.
//!
//! Source text is scanned for a group marker, a class declaration and
//! route-annotated asynchronous methods. The declarations of all files of
//! one pass are collected in a registry that admits each method of a group
//! once, and the registry is rendered as one module that forwards every
//! method to the inter-process invocation channel.

pub mod declarations;
pub mod emitter;
pub mod matcher;
pub mod pass;
pub mod registry;
pub mod report;
pub mod signature;
pub mod text;
pub mod watch;

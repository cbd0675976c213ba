//! The incremental update pipeline of a retained-mode declarative UI: the compose pass
//! over the retained node tree, which refreshes absolute positions and merges dirty
//! flags upward, and the view reconciliation protocol with its action-mapping
//! combinator and the bookkeeping of deferred work.
pub mod geometry;
pub mod tree;
pub mod compose;
pub mod compose_laws;
pub mod view;
pub mod map_task;
pub mod tasks;

//! The terminal plugin: lists the sessions and jumps to their panes.

pub mod drawing_laws;
pub mod laws;
pub mod paint;
pub mod panes;
pub mod row;
pub mod state;

//! Core of a terminal browser over a static crafting database: the catalog of
//! items and recipes with its canonical order and lookup indices, the
//! navigation state machine that drives the two list panes, the pure resolver
//! that turns catalog plus navigation state into a view-ready structure, and
//! the dispatcher that maps key classes to navigation commands.
//!
//! Terminal handling, file reading and JSON decoding are external
//! collaborators and live outside this crate.

pub mod catalog;
pub mod dispatch;
pub mod model;
pub mod nav;
pub mod order;
pub mod resolver;

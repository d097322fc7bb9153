//! An interactive session core for browsing S3-compatible object storage:
//! navigation state, live search over a background object index, recursive
//! download and delete orchestration, and preview selection.
//!
//! The library owns every decision and every piece of UI-visible state; the
//! surrounding binary performs terminal rendering and network/file I/O and
//! feeds the results back in as plain values.

pub mod bulk;
pub mod data;
pub mod action;
pub mod delete;
pub mod download;
pub mod indexing;
pub mod keys;
pub mod listing;
pub mod localview;
pub mod navigation;
pub mod preview;
pub mod search;
pub mod session;
pub mod sorting;
pub mod strings;

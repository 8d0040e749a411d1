//! Core of a hierarchical document workspace: a tree of views guarded by a
//! single mutable slot, soft deletion through a trash set, and computation of
//! the notifications that keep observers of the tree consistent.
//!
//! The collaborative engine that persists the tree, the per-layout content
//! handlers, and the delivery of notifications are external collaborators:
//! they hand plain values in and take plain values out. Everything that
//! decides, validates or mutates lives here and is verified.

pub mod entities;
pub mod errors;
pub mod folder;
pub mod laws;
pub mod listener;
pub mod manager;
pub mod notification;

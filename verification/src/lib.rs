//! Core of a personal knowledge-base tool: notes carry a structured header
//! (name, tags, outbound link names) in front of an opaque body, are addressed
//! by identifiers parsed from their storage names, and are browsed through two
//! cooperating navigation modes over the note graph and over links found in a
//! note's body.  This crate holds the decision logic: header mutation with
//! idempotent set semantics, the action protocols of both navigation modes
//! with their fallback rules, and the two-phase link orchestration.  All
//! input/output (file writes, the storage engine, the interactive selector)
//! stays with the surrounding program, which hands plain values in and carries
//! the returned effects out.

pub mod commands;
pub mod error;
pub mod explore;
pub mod note;
pub mod surf;

//! Generates build files for a tree of per-chapter sample directories.
//!
//! The library classifies directory entries into language buckets, renders
//! the per-chapter variable and target text, and assembles the root build
//! file that chains every chapter's targets. All rendering is pure: the
//! caller supplies directory entries and file contents as plain values and
//! writes the returned text back to disk.

pub mod text;
pub mod classify;
pub mod chapter;
pub mod rootgen;
pub mod order;
pub mod samples;
pub mod laws;

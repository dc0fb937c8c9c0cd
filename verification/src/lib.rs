//! Core of a personal activity tracker.
//!
//! The tracker samples, at a fixed interval, which application and window
//! are in the foreground, with a screenshot and its recognised text where
//! they can be had, and reports how a day was spent.
//!
//! This crate holds what the tracker decides and computes, verified:
//!
//! - [`database`]: the append-only table of capture events and its queries;
//! - [`capture`]: the loop and the capture cycle, as state machines;
//! - [`report`]: the timeline and the per-application summary of a day;
//! - [`pause_control`]: the pause switch;
//! - [`config`], [`cli`]: settings and the command line;
//! - [`image_store`], [`metadata`], [`ocr`], [`command`]: what is asked of
//!   the system's commands and how their outcome is read;
//! - [`timestamp`], [`path`], [`text`], [`error`]: moments, paths, strings
//!   and errors.
//!
//! Running commands, sleeping and reading or writing files are left to the
//! program built around the crate.

pub mod capture;
pub mod cli;
pub mod command;
pub mod config;
pub mod database;
pub mod error;
pub mod image_store;
pub mod metadata;
pub mod ocr;
pub mod path;
pub mod pause_control;
pub mod report;
pub mod text;
pub mod timestamp;

//! The core of a local-first music library: the pipeline that turns
//! folders and URLs into a graph of collections, entries and musics.
//!
//! - `engine`, `pipeline`, `probe`, `json`: the download pipeline for one node, as
//!   steps from what happened to what is done next.
//! - `journal`, `resume_laws`: the per-node job journal, the rule of
//!   resumption, and why a resumed run leaves the graph of an uninterrupted
//!   one.
//! - `graph`, `graph_laws`, `store`, `plan`: the graph as a mathematical
//!   value, what holds of it, the store that keeps it, and the steps that
//!   change it.
//! - `ingest`, `ingest_laws`, `coordinator`, `scoring`, `loudness`: what
//!   the commands of the UI write.
//! - `ffmpeg`, `ytdlp`, `release`, `ffmpeg_release`, `files`: the external
//!   tools, how they are called and what is read out of what they print.
//! - `config`, `queue`, `schedule`, `errors`, `table`, `model`: settings,
//!   the download queue, the daily update, and the records.
//! - `text`, `numbers`, `seqs`, `sanitize`, `ids`, `diff`: texts, numbers,
//!   keyed sequences, path segments, identifiers.

pub mod config;
pub mod coordinator;
pub mod diff;
pub mod engine;
pub mod errors;
pub mod ffmpeg;
pub mod ffmpeg_release;
pub mod files;
pub mod graph;
pub mod graph_laws;
pub mod ids;
pub mod ingest;
pub mod ingest_laws;
pub mod journal;
pub mod json;
pub mod loudness;
pub mod model;
pub mod numbers;
pub mod pipeline;
pub mod plan;
pub mod probe;
pub mod queue;
pub mod release;
pub mod resume_laws;
pub mod sanitize;
pub mod schedule;
pub mod scoring;
pub mod seqs;
pub mod store;
pub mod table;
pub mod text;
pub mod ytdlp;

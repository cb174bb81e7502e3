//! Ingestion pipeline for benchmark results submitted through repository
//! issues: decode the triggering event, pick trusted links out of the issue
//! text, name downloaded content by its digest, sort results into per-model
//! directories, plan the merge of each touched directory, and plan the
//! commit that publishes the batch.
//!
//! The library holds the decisions of the pipeline; fetching bytes, running
//! the benchmark tool and driving the repository are left to the caller,
//! which feeds the outcomes back in as plain values.

use vstd::prelude::*;

pub mod event;
pub mod filenames;
pub mod links;
pub mod merge;
pub mod model;
pub mod publish;
pub mod run;
pub mod text;

verus! {

/// Everything that can go wrong in one run of the pipeline.
///
/// Payload troubles (`MalformedPayload`, `UnhandledEvent`, `MissingContent`)
/// come before any side effect; the rest name the stage that failed.
#[derive(Debug)]
pub enum PipelineError {
    /// The event payload was not valid structured data, or lacked a field
    /// that every payload must carry.
    MalformedPayload,
    /// The event names an action this pipeline does not handle.
    UnhandledEvent { event_name: Option<String>, action: String },
    /// The field that should hold the issue or comment text is absent.
    MissingContent,
    /// A download failed: transport error or non-success status.
    FetchError { url: String, cause: String },
    /// The benchmark tool wrote to its error stream.
    ExternalToolError { stderr: String },
    /// The benchmark tool's report did not have the expected shape.
    ParseError,
    /// The model name derived from the report cannot name a directory.
    InvalidModelName,
    /// A downloaded file could not be moved into its model directory.
    MoveError { path: String },
    /// Staging, committing, branching or pushing failed.
    GitError { operation: String, cause: String },
}

} // verus!

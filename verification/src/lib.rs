//! Host-side backend for a settings-hooks desktop application.
//!
//! The core is a verified merge engine for the `"hooks"` section of a JSON
//! settings document; around it stand verified decision functions for the
//! platform launcher, the interpreter probe and the resource path resolver.

pub mod codec;
pub mod launcher;
pub mod probe;
pub mod resources;
pub mod text;
pub mod json;
pub mod settings;

use vstd::prelude::*;

verus! {

/// Envelope returned to the UI for install-style operations.
pub struct InstallResult {
    pub success: bool,
    pub message: String,
    pub error: Option<String>,
}

impl InstallResult {
    /// A successful operation carrying its report.
    pub fn ok(message: String) -> (r: InstallResult)
        ensures
            r.success,
            r.message == message,
            r.error is None,
    {
        InstallResult { success: true, message, error: None }
    }

    /// The report of a completed merge.
    pub fn merged_ok() -> (r: InstallResult)
        ensures
            r.success,
            r.message@ == "Hooks merged successfully"@,
            r.error is None,
    {
        InstallResult {
            success: true,
            message: "Hooks merged successfully".to_owned(),
            error: None,
        }
    }

    /// The report of a completed removal.
    pub fn removed_ok() -> (r: InstallResult)
        ensures
            r.success,
            r.message@ == "Hooks removed successfully"@,
            r.error is None,
    {
        InstallResult {
            success: true,
            message: "Hooks removed successfully".to_owned(),
            error: None,
        }
    }

    /// A failed operation carrying its diagnostic.
    pub fn err(error: String) -> (r: InstallResult)
        ensures
            !r.success,
            r.message@ == Seq::<char>::empty(),
            r.error == Some(error),
    {
        InstallResult { success: false, message: String::new(), error: Some(error) }
    }
}

/// Envelope returned to the UI for file reads.
pub struct FileResult {
    pub success: bool,
    pub content: Option<String>,
    pub error: Option<String>,
}

impl FileResult {
    /// A successful read carrying the file's text.
    pub fn ok(content: String) -> (r: FileResult)
        ensures
            r.success,
            r.content == Some(content),
            r.error is None,
    {
        FileResult { success: true, content: Some(content), error: None }
    }

    /// A failed read carrying the diagnostic.
    pub fn err(error: String) -> (r: FileResult)
        ensures
            !r.success,
            r.content is None,
            r.error == Some(error),
    {
        FileResult { success: false, content: None, error: Some(error) }
    }
}

} // verus!

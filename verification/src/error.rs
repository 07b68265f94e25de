//! Why a merge can fail.
use vstd::prelude::*;
use crate::text::{push_str, string_of};

verus! {

/// Why a merge failed. Every failure stops the merge; nothing is written.
#[derive(Debug, PartialEq, Eq)]
pub enum MergeError {
    /// The source directory holds neither `lib.rs` nor `main.rs`.
    ManifestEntryMissing,
    /// A module is declared without a body and none of the places where its
    /// file could be holds one.
    ModuleFileNotFound { module: String },
    /// A file is not valid Rust.
    ParseFailure { file: String, message: String },
    /// Two modules would get the same path.
    PathCollision { path: String },
    /// The file of the module at `path` is one that is being walked
    /// already: it declares, by itself or through other files, a module
    /// whose file it is.
    ModuleCycle { path: String, file: String },
}

/// What a [`MergeError`] holds.
pub ghost enum MergeErrorView {
    ManifestEntryMissing,
    ModuleFileNotFound { module: Seq<char> },
    ParseFailure { file: Seq<char>, message: Seq<char> },
    PathCollision { path: Seq<char> },
    ModuleCycle { path: Seq<char>, file: Seq<char> },
}

impl DeepView for MergeError {
    type V = MergeErrorView;

    open spec fn deep_view(&self) -> MergeErrorView {
        match self {
            MergeError::ManifestEntryMissing => MergeErrorView::ManifestEntryMissing,
            MergeError::ModuleFileNotFound { module } => MergeErrorView::ModuleFileNotFound {
                module: module@,
            },
            MergeError::ParseFailure { file, message } => MergeErrorView::ParseFailure {
                file: file@,
                message: message@,
            },
            MergeError::PathCollision { path } => MergeErrorView::PathCollision { path: path@ },
            MergeError::ModuleCycle { path, file } => MergeErrorView::ModuleCycle {
                path: path@,
                file: file@,
            },
        }
    }
}

/// The message of an error: a fixed sentence, followed by what the error
/// names.
pub open spec fn message_of(e: MergeErrorView) -> Seq<char> {
    match e {
        MergeErrorView::ManifestEntryMissing =>
            "Neither lib.rs nor main.rs found in the src directory"@,
        MergeErrorView::ModuleFileNotFound { module } => "Failed to find module file for "@
            + module,
        MergeErrorView::ParseFailure { file, message } => "Failed to parse "@ + file + ": "@
            + message,
        MergeErrorView::PathCollision { path } => "Module path declared twice: "@ + path,
        MergeErrorView::ModuleCycle { path, file } => "Module "@ + path + " leads back to "@
            + file,
    }
}

impl MergeError {
    /// The message of the error.
    pub fn message(&self) -> (r: String)
        ensures
            r@ == message_of(self.deep_view()),
    {
        let mut out: Vec<char> = Vec::new();
        match self {
            MergeError::ManifestEntryMissing => {
                push_str(&mut out, "Neither lib.rs nor main.rs found in the src directory");
            },
            MergeError::ModuleFileNotFound { module } => {
                push_str(&mut out, "Failed to find module file for ");
                push_str(&mut out, module.as_str());
            },
            MergeError::ParseFailure { file, message } => {
                push_str(&mut out, "Failed to parse ");
                push_str(&mut out, file.as_str());
                push_str(&mut out, ": ");
                push_str(&mut out, message.as_str());
            },
            MergeError::PathCollision { path } => {
                push_str(&mut out, "Module path declared twice: ");
                push_str(&mut out, path.as_str());
            },
            MergeError::ModuleCycle { path, file } => {
                push_str(&mut out, "Module ");
                push_str(&mut out, path.as_str());
                push_str(&mut out, " leads back to ");
                push_str(&mut out, file.as_str());
            },
        }
        assert(out@ =~= message_of(self.deep_view()));
        string_of(&out)
    }
}

} // verus!

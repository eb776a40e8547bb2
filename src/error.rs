//! Errors of a run.
use vstd::prelude::*;
use crate::paths::{decimal, push_decimal};

verus! {

/// Why a run stopped.
#[derive(Debug)]
pub enum HarnessError {
    /// A file could not be read.
    ReadFile { path: String },
    /// A file could not be created.
    CreateFile { path: String },
    /// A directory could not be created.
    CreateDir { path: String },
    /// A directory could not be listed.
    ListDir { path: String },
    /// No solver is registered for the level.
    UnsupportedLevel { level: usize },
}

/// The message of an error, which names the path or level concerned.
pub open spec fn message_of(e: HarnessError) -> Seq<char> {
    match e {
        HarnessError::ReadFile { path } => "Could not read file at path: "@ + path@,
        HarnessError::CreateFile { path } => "Could not create file at path: "@ + path@,
        HarnessError::CreateDir { path } => "Failed to create directory: "@ + path@,
        HarnessError::ListDir { path } => "Could not list directory: "@ + path@,
        HarnessError::UnsupportedLevel { level } => "No solver is registered for level "@
            + decimal(level as nat),
    }
}

impl HarnessError {
    /// The message of this error.
    pub fn message(&self) -> (r: String)
        ensures
            r@ == message_of(*self),
    {
        match self {
            HarnessError::ReadFile { path } => {
                let r = String::from_str("Could not read file at path: ");
                r.concat(path.as_str())
            },
            HarnessError::CreateFile { path } => {
                let r = String::from_str("Could not create file at path: ");
                r.concat(path.as_str())
            },
            HarnessError::CreateDir { path } => {
                let r = String::from_str("Failed to create directory: ");
                r.concat(path.as_str())
            },
            HarnessError::ListDir { path } => {
                let r = String::from_str("Could not list directory: ");
                r.concat(path.as_str())
            },
            HarnessError::UnsupportedLevel { level } => {
                let mut r = String::from_str("No solver is registered for level ");
                push_decimal(&mut r, *level);
                r
            },
        }
    }
}

} // verus!

//! Error types of the rendering core. Pipeline failures are fatal for the
//! frame and carry a description; asset failures name the missing resource.

use vstd::prelude::*;

verus! {

/// A fatal rendering-core failure, surfaced to the caller once per frame.
#[derive(Clone, Debug)]
pub enum EngineGraphicsError {
    /// A scene-asset import failure.
    GltfError(String),
    /// A renderer or pipeline failure: degenerate matrices, out-of-range
    /// geometry, resource creation gone wrong.
    RendererError(String),
    /// A missing or unreadable file, with the message and the file.
    FileError(String, String),
}

impl EngineGraphicsError {
    /// The human-readable description carried by the error.
    pub fn message(&self) -> (r: &String)
        ensures
            *r == match self {
                EngineGraphicsError::GltfError(m) => m,
                EngineGraphicsError::RendererError(m) => m,
                EngineGraphicsError::FileError(m, _) => m,
            },
    {
        match self {
            EngineGraphicsError::GltfError(m) => m,
            EngineGraphicsError::RendererError(m) => m,
            EngineGraphicsError::FileError(m, _) => m,
        }
    }
}

/// A failure of the frame clock.
#[derive(Clone, Debug)]
pub enum EngineTimeError {
    TimeError(String),
}

impl EngineTimeError {
    /// The human-readable description carried by the error.
    pub fn message(&self) -> (r: &String)
        ensures
            *r == match self {
                EngineTimeError::TimeError(m) => m,
            },
    {
        match self {
            EngineTimeError::TimeError(m) => m,
        }
    }
}

} // verus!

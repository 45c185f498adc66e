//! Errors of the renderer and of the two pools.

use vstd::prelude::*;

verus! {

/// Errors that can occur during map rendering operations.
#[derive(Debug, Clone, Copy, PartialEq, Eq, Structural)]
pub enum RenderingError {
    /// Style must be specified before rendering can occur.
    StyleNotSpecified,
    /// The renderer returned invalid or corrupted image data.
    InvalidImageData,
}

impl RenderingError {
    /// A sentence that describes the error.
    pub fn message(&self) -> (r: &'static str)
        ensures
            r@ == self.spec_message(),
    {
        match self {
            RenderingError::StyleNotSpecified => "Style must be specified to render a tile",
            RenderingError::InvalidImageData => "Invalid image data received from renderer",
        }
    }

    /// The text of [`RenderingError::message`].
    pub open spec fn spec_message(&self) -> Seq<char> {
        match self {
            RenderingError::StyleNotSpecified => "Style must be specified to render a tile"@,
            RenderingError::InvalidImageData => "Invalid image data received from renderer"@,
        }
    }
}

/// Errors of the serialising render pool.
#[derive(Debug, Clone, PartialEq, Eq)]
pub enum PoolError {
    /// The style path is not an existing regular file; the backend was not touched.
    NotFound(String),
    /// The backend failed to load the style; its diagnostic text.
    BackendError(String),
    /// The backend failed to render the tile.
    RenderingError(RenderingError),
    /// The rendering thread is gone; the request could not be handed to it.
    FailedToSendRequest,
    /// The rendering thread is gone; no response came back.
    FailedToReceiveResponse,
}

/// Errors of the multi-process render pool.
#[derive(Debug, Clone, PartialEq, Eq)]
pub enum MultiThreadedRenderPoolError {
    /// The style path is not an existing regular file; the worker's backend
    /// was not touched.
    NotFound(String),
    /// Reading or writing a worker's stream failed.
    IOError(String),
    /// The backend failed to render the tile.
    RenderingError(RenderingError),
    /// A worker process could not be started.
    WorkerSpawnError(String),
    /// The worker answered with a failure; its text.
    WorkerError(String),
    /// A request could not be encoded.
    SerializationError(String),
    /// A worker's answer held no valid image.
    ImageDecodeError(String),
    /// A frame from a worker did not decode; its stream is no longer read.
    ProtocolError(String),
    /// The worker never answered.
    FailedToReceiveResponse,
}

} // verus!

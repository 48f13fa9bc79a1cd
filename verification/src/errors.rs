//! Error taxonomy of the pipeline. Per-item failures are isolated by the
//! caller; none of these aborts a whole batch by itself.
use vstd::prelude::*;

verus! {

/// What can go wrong while one image moves through the pipeline.
#[derive(Clone, Copy, Debug, PartialEq, Eq, Structural)]
pub enum PipelineError {
    /// The source bytes could not be decoded as a supported raster image.
    Decode,
    /// A half could not be re-encoded as JPEG (a dimension is zero or above
    /// the JPEG limit of 65535).
    Encode,
    /// A buffer handed to the density patcher does not begin with the JPEG
    /// start-of-image marker.
    InvalidContainer,
}

impl PipelineError {
    /// A short human-readable description.
    pub fn message(&self) -> (r: &'static str)
        ensures
            r@ == self.message_spec(),
    {
        match self {
            PipelineError::Decode => "failed to decode source image",
            PipelineError::Encode => "failed to encode JPEG output",
            PipelineError::InvalidContainer => "buffer is not a valid JPEG",
        }
    }

    pub open spec fn message_spec(&self) -> Seq<char> {
        match self {
            PipelineError::Decode => "failed to decode source image"@,
            PipelineError::Encode => "failed to encode JPEG output"@,
            PipelineError::InvalidContainer => "buffer is not a valid JPEG"@,
        }
    }
}

} // verus!

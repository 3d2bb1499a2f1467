//! Values that the user-facing commands return.

use vstd::prelude::*;
use crate::uuid::UUID;

verus! {

/// The payload of a message between the interface and the engine.
#[derive(PartialEq, Eq, Clone, Debug, Default)]
pub struct Payload {
    pub message: String,
}

/// A thumbnail of a file.
#[derive(PartialEq, Eq, Clone, Debug)]
pub struct Thumbnail {
    pub uuid: UUID,
    pub file_uuid: UUID,
    pub path: String,
}

/// The identifier of a thumbnail, as text.
#[derive(PartialEq, Eq, Clone, Debug, Default)]
pub struct ThumbnailUuid(pub String);

/// The identifier of a file, as text.
#[derive(PartialEq, Eq, Clone, Debug, Default)]
pub struct FileUuid(pub String);

/// The size of an image, in pixels.
#[derive(PartialEq, Eq, Structural, Clone, Copy, Debug, Default)]
pub struct ImageSize {
    pub width: u32,
    pub height: u32,
}

} // verus!

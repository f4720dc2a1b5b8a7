//! The earlier request data model, kept for callers that still build it.

use vstd::prelude::*;

use crate::json::Json;
use super::safety::HarmBlockThreshold;
use super::safety::HarmCategory;

verus! {

/// One unit of a content: exactly one of the payload forms should be
/// populated.
#[derive(Debug, Clone)]
pub struct Part {
    pub text: Option<String>,
    pub inline_data: Option<InlineData>,
    pub file_data: Option<FileData>,
    pub video_metadata: Option<VideoMetadata>,
}

/// Inline binary data: a mime type and a base64 payload.
#[derive(Debug, Clone)]
pub struct InlineData {
    pub mime_type: String,
    pub data: String,
}

/// A reference to a file by URI.
#[derive(Debug, Clone)]
pub struct FileData {
    pub mime_type: String,
    pub file_uri: String,
}

/// The start and end markers of a video segment.
#[derive(Debug, Clone)]
pub struct VideoMetadata {
    pub start_offset: StartOffset,
    pub end_offset: EndOffset,
}

/// An offset into a video, in whole seconds plus nanoseconds.
#[derive(Debug, Clone)]
pub struct StartOffset {
    pub seconds: i32,
    pub nanos: i32,
}

/// The end counterpart of [`StartOffset`].
#[derive(Debug, Clone)]
pub struct EndOffset {
    pub seconds: i32,
    pub nanos: i32,
}

/// A set of function declarations handed to the model.
#[derive(Debug, Clone)]
pub struct Tools {
    pub function_declarations: Vec<FunctionDeclaration>,
}

/// A function made available to the model, with a JSON schema for its
/// parameters.
#[derive(Debug, Clone)]
pub struct FunctionDeclaration {
    pub name: String,
    pub description: String,
    pub parameters: Json,
}

/// One safety rule: block at the given threshold for the given category.
#[derive(Debug, Clone, PartialEq, Eq, Structural)]
pub struct SafetySettings {
    pub category: HarmCategory,
    pub threshold: HarmBlockThreshold,
}

} // verus!

//! The typed values exchanged at the bridge boundary: the three request
//! variants the caller may dispatch, the result shape the worker returns,
//! and the status shape the credential resolver reports.
//!
//! Optional request fields mean "let the worker choose a default"; they stay
//! explicit options and are never default-substituted here, since the worker
//! owns default policy.

use vstd::prelude::*;

verus! {

/// What the credential resolver reports to the caller.
pub struct GeminiStatusResponse {
    pub configured: bool,
    pub message: String,
}

/// Abstract value of a status response.
pub struct StatusResponseView {
    pub configured: bool,
    pub message: Seq<char>,
}

impl View for GeminiStatusResponse {
    type V = StatusResponseView;

    open spec fn view(&self) -> StatusResponseView {
        StatusResponseView { configured: self.configured, message: self.message@ }
    }
}

/// The result the worker emits on standard output for every operation.
pub struct GeminiGenerateResponse {
    pub image_base64: String,
    pub prompt_used: String,
}

/// Abstract value of a worker result.
pub struct GenerateResponseView {
    pub image_base64: Seq<char>,
    pub prompt_used: Seq<char>,
}

impl View for GeminiGenerateResponse {
    type V = GenerateResponseView;

    open spec fn view(&self) -> GenerateResponseView {
        GenerateResponseView {
            image_base64: self.image_base64@,
            prompt_used: self.prompt_used@,
        }
    }
}

/// Request to generate an image from a text prompt.
pub struct GeminiGenerateRequest {
    pub prompt: String,
    pub style: Option<String>,
    pub width: Option<u32>,
    pub height: Option<u32>,
}

/// Abstract value of a generate request.
pub struct GenerateRequestView {
    pub prompt: Seq<char>,
    pub style: Option<Seq<char>>,
    pub width: Option<u32>,
    pub height: Option<u32>,
}

/// View of an optional owned string field.
pub open spec fn opt_field_view(o: Option<String>) -> Option<Seq<char>> {
    match o {
        Some(s) => Some(s@),
        None => None,
    }
}

impl View for GeminiGenerateRequest {
    type V = GenerateRequestView;

    open spec fn view(&self) -> GenerateRequestView {
        GenerateRequestView {
            prompt: self.prompt@,
            style: opt_field_view(self.style),
            width: self.width,
            height: self.height,
        }
    }
}

/// Request to edit an existing image under a text prompt.
pub struct GeminiEditRequest {
    pub image_base64: String,
    pub prompt: String,
}

/// Abstract value of an edit request.
pub struct EditRequestView {
    pub image_base64: Seq<char>,
    pub prompt: Seq<char>,
}

impl View for GeminiEditRequest {
    type V = EditRequestView;

    open spec fn view(&self) -> EditRequestView {
        EditRequestView { image_base64: self.image_base64@, prompt: self.prompt@ }
    }
}

/// Request to post-process an image for the plotter.
pub struct GeminiProcessRequest {
    pub image_base64: String,
    pub style: Option<String>,
    pub custom_prompt: Option<String>,
    pub remove_background: Option<bool>,
    pub threshold: Option<u32>,
    pub padding: Option<u32>,
}

/// Abstract value of a process request.
pub struct ProcessRequestView {
    pub image_base64: Seq<char>,
    pub style: Option<Seq<char>>,
    pub custom_prompt: Option<Seq<char>>,
    pub remove_background: Option<bool>,
    pub threshold: Option<u32>,
    pub padding: Option<u32>,
}

impl View for GeminiProcessRequest {
    type V = ProcessRequestView;

    open spec fn view(&self) -> ProcessRequestView {
        ProcessRequestView {
            image_base64: self.image_base64@,
            style: opt_field_view(self.style),
            custom_prompt: opt_field_view(self.custom_prompt),
            remove_background: self.remove_background,
            threshold: self.threshold,
            padding: self.padding,
        }
    }
}

} // verus!

//! The process bridge contract: the argument convention a worker invocation
//! must use, the working-directory decision, the interpretation of a worker
//! exit, and the caller-facing error texts.
//!
//! The bridge itself is synchronous and side-effect free here: the caller
//! spawns the worker process, waits for it, and hands the captured exit
//! status and streams to [`interpret_worker_output`]. Arguments are discrete
//! values, never a concatenated command line, so payload content cannot
//! inject further arguments.

use crate::parse::{parse_worker_output, spec_parse_result};
use crate::types::GeminiGenerateResponse;
use vstd::prelude::*;

verus! {

/// Why a bridge call failed. Every stage surfaces immediately as one of
/// these; nothing is retried and there is no partial result.
pub enum BridgeError {
    /// The request could not be serialized. The marshaler of this crate is
    /// total and never produces this; it stands for callers whose own
    /// marshaling can fail and must stay distinguishable.
    Serialization { detail: String },
    /// The worker's working directory could not be resolved.
    PathResolution { detail: String },
    /// The worker process could not be launched at all.
    Launch { detail: String },
    /// The worker ran and exited non-zero; `stderr` holds its diagnostics
    /// verbatim.
    Worker { stderr: String },
    /// The worker exited zero but its standard output did not conform to
    /// the expected result schema; `raw` holds that output verbatim.
    ResponseParse { detail: String, raw: String },
}

/// Error text for a request that could not be serialized.
pub open spec fn serialization_error_text(detail: Seq<char>) -> Seq<char> {
    "Failed to serialize request: "@ + detail
}

/// Error text for a worker that could not be launched.
pub open spec fn launch_error_text(detail: Seq<char>) -> Seq<char> {
    "Failed to execute Python: "@ + detail
}

/// Error text for a worker that exited non-zero: a fixed prefix, then the
/// worker's standard-error text unaltered.
pub open spec fn worker_error_text(stderr: Seq<char>) -> Seq<char> {
    "Python backend error: "@ + stderr
}

/// Error text for worker output that did not conform to the result schema.
pub open spec fn parse_error_text(detail: Seq<char>) -> Seq<char> {
    "Failed to parse response: "@ + detail
}

/// The single human-readable line each failure turns into.
pub open spec fn bridge_error_text_view(e: &BridgeError) -> Seq<char> {
    match e {
        BridgeError::Serialization { detail } => serialization_error_text(detail@),
        BridgeError::PathResolution { detail } => detail@,
        BridgeError::Launch { detail } => launch_error_text(detail@),
        BridgeError::Worker { stderr } => worker_error_text(stderr@),
        BridgeError::ResponseParse { detail, raw } => parse_error_text(detail@),
    }
}

/// Renders a bridge failure as its single descriptive line.
pub fn bridge_error_text(e: &BridgeError) -> (r: String)
    ensures
        r@ == bridge_error_text_view(e),
{
    match e {
        BridgeError::Serialization { detail } => {
            let mut out = String::from_str("Failed to serialize request: ");
            out.append(detail.as_str());
            out
        },
        BridgeError::PathResolution { detail } => detail.clone(),
        BridgeError::Launch { detail } => {
            let mut out = String::from_str("Failed to execute Python: ");
            out.append(detail.as_str());
            out
        },
        BridgeError::Worker { stderr } => {
            let mut out = String::from_str("Python backend error: ");
            out.append(stderr.as_str());
            out
        },
        BridgeError::ResponseParse { detail, raw } => {
            let mut out = String::from_str("Failed to parse response: ");
            out.append(detail.as_str());
            out
        },
    }
}

/// The three named operations the bridge can dispatch.
#[derive(Clone, Copy)]
pub enum Operation {
    Generate,
    Edit,
    ProcessImage,
}

/// The operation name handed to the worker as its second argument.
pub open spec fn spec_operation_name(op: Operation) -> Seq<char> {
    match op {
        Operation::Generate => "generate"@,
        Operation::Edit => "edit"@,
        Operation::ProcessImage => "process"@,
    }
}

/// The context label prefixed to a failure of the given operation.
pub open spec fn failure_prefix(op: Operation) -> Seq<char> {
    match op {
        Operation::Generate => "Failed to generate image: "@,
        Operation::Edit => "Failed to edit image: "@,
        Operation::ProcessImage => "Failed to process image: "@,
    }
}

/// Yields the operation name for the worker's argument vector.
pub fn operation_name(op: Operation) -> (r: &'static str)
    ensures
        r@ == spec_operation_name(op),
{
    match op {
        Operation::Generate => "generate",
        Operation::Edit => "edit",
        Operation::ProcessImage => "process",
    }
}

/// The dispatch-module selector: the worker entry point named by the first
/// two arguments of every invocation.
pub fn dispatch_module() -> (r: &'static str)
    ensures
        r@ == "core.gemini.cli"@,
{
    "core.gemini.cli"
}

/// The fixed argument vector of a worker invocation: the interpreter's
/// module flag, the dispatch-module selector, the operation name, and the
/// serialized payload, as four discrete arguments.
pub fn worker_args(op: Operation, payload: String) -> (r: Vec<String>)
    ensures
        r@.len() == 4,
        r@[0]@ == "-m"@,
        r@[1]@ == "core.gemini.cli"@,
        r@[2]@ == spec_operation_name(op),
        r@[3]@ == payload@,
{
    let mut args: Vec<String> = Vec::new();
    args.push(String::from_str("-m"));
    args.push(String::from_str("core.gemini.cli"));
    args.push(String::from_str(operation_name(op)));
    args.push(payload);
    args
}

/// The fixed sibling directory holding the worker, resolved against the
/// parent of the caller's current working directory. Fails when that parent
/// cannot be determined. The separator is written as `/`.
pub fn resolve_backend_dir(parent_of_cwd: Option<String>) -> (r: Result<String, BridgeError>)
    ensures
        parent_of_cwd matches Some(p) ==> (r matches Ok(d) && d@ == p@ + "/backend"@),
        parent_of_cwd is None ==> (r matches Err(e) && e matches BridgeError::PathResolution {
            detail,
        } && detail@ == "Failed to get parent directory"@),
{
    match parent_of_cwd {
        Some(p) => {
            let mut d = p;
            d.append("/backend");
            Ok(d)
        },
        None => Err(
            BridgeError::PathResolution {
                detail: String::from_str("Failed to get parent directory"),
            },
        ),
    }
}

/// Converts a finished worker invocation into the call's outcome.
///
/// A non-zero exit fails with the standard-error text verbatim; a zero exit
/// succeeds exactly when the standard output conforms to the expected
/// result schema, and otherwise fails with a parse failure carrying the raw
/// output — a kind distinct from a worker-reported failure.
pub fn interpret_worker_output(exit_success: bool, stdout: &str, stderr: &str) -> (r: Result<
    GeminiGenerateResponse,
    BridgeError,
>)
    ensures
        !exit_success ==> (r matches Err(e) && e matches BridgeError::Worker { stderr: t } && t@
            == stderr@),
        exit_success ==> (match spec_parse_result(stdout@) {
            Some(p) => r matches Ok(g) && g@.image_base64 == p.0 && g@.prompt_used == p.1,
            None => r matches Err(e) && e matches BridgeError::ResponseParse { detail, raw }
                && raw@ == stdout@,
        }),
{
    if !exit_success {
        return Err(BridgeError::Worker { stderr: stderr.to_owned() });
    }
    match parse_worker_output(stdout) {
        Some(g) => Ok(g),
        None => Err(
            BridgeError::ResponseParse {
                detail: String::from_str("response does not match the expected result schema"),
                raw: stdout.to_owned(),
            },
        ),
    }
}

/// Maps a bridge failure into the single caller-facing error string of the
/// given operation: the operation's context label, then the failure's own
/// descriptive line.
pub fn operation_failure_message(op: Operation, e: &BridgeError) -> (r: String)
    ensures
        r@ == failure_prefix(op) + bridge_error_text_view(e),
{
    let mut out = match op {
        Operation::Generate => String::from_str("Failed to generate image: "),
        Operation::Edit => String::from_str("Failed to edit image: "),
        Operation::ProcessImage => String::from_str("Failed to process image: "),
    };
    let tail = bridge_error_text(e);
    out.append(tail.as_str());
    out
}

} // verus!

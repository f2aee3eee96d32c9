//! The approval interface: its records, what it answers, and the frames of
//! its live feed.

use vstd::prelude::*;
use vstd::string::StringExecFns;
use crate::state::{after_resolution, is_snapshot, resolves, AppState};

verus! {

/// `rmcp::model::CreateMessageRequestParams`, what an extension asks the
/// model. It is carried through and never looked into.
#[verifier::external_type_specification]
#[verifier::external_body]
pub struct ExCreateMessageRequestParams(rmcp::model::CreateMessageRequestParams);

/// Calls `Clone::clone` of `rmcp::model::CreateMessageRequestParams`, which
/// is derived: the copy holds in every field what `params` holds.
#[verifier::external_body]
pub(crate) fn clone_params(params: &rmcp::model::CreateMessageRequestParams) -> (copy:
    rmcp::model::CreateMessageRequestParams)
    ensures
        copy == *params,
{
    params.clone()
}

/// A request of an extension for a completion, waiting for an operator.
///
/// The registry reads only `id`; `params` is carried as it came.
#[derive(Debug)]
pub struct SamplingRequest {
    pub id: String,
    pub extension_name: String,
    pub params: rmcp::model::CreateMessageRequestParams,
}

impl Clone for SamplingRequest {
    fn clone(&self) -> (copy: Self)
        ensures
            copy == *self,
    {
        SamplingRequest {
            id: self.id.clone(),
            extension_name: self.extension_name.clone(),
            params: clone_params(&self.params),
        }
    }
}

/// The operator's verdict on one request.
#[derive(Clone, Copy, Debug, PartialEq, Eq, Structural)]
pub struct ApprovalRequest {
    pub approved: bool,
}

/// The acknowledgement sent back once a verdict was recorded.
#[derive(Clone, Copy, Debug, PartialEq, Eq, Structural)]
pub struct ApprovalResponse {
    pub success: bool,
}

/// The status answered where the request named is not pending.
pub const NOT_FOUND: u16 = 404;

/// Answers a query for the pending requests: a copy of each, in no
/// particular order.
pub fn get_pending_requests(state: &AppState) -> (listed: Vec<SamplingRequest>)
    requires
        state.wf(),
    ensures
        is_snapshot(listed@, state@.pending()),
{
    state.get_pending_sampling_requests()
}

/// Answers a verdict on `request_id`. A pending request is resolved with the
/// verdict and acknowledged; for any other identifier the answer is
/// `NOT_FOUND` and nothing changes.
pub fn approve_sampling_request(
    state: &mut AppState,
    request_id: &str,
    payload: ApprovalRequest,
) -> (answer: Result<ApprovalResponse, u16>)
    requires
        old(state).wf(),
    ensures
        final(state).wf(),
        final(state)@ == after_resolution(old(state)@, request_id@, payload.approved),
        answer == if resolves(old(state)@, request_id@) {
            Ok::<ApprovalResponse, u16>(ApprovalResponse { success: true })
        } else {
            Err::<ApprovalResponse, u16>(NOT_FOUND)
        },
        answer is Err ==> *final(state) == *old(state),
{
    match state.respond_to_sampling_request(request_id, payload.approved) {
        Ok(()) => Ok(ApprovalResponse { success: true }),
        Err(_) => Err(NOT_FOUND),
    }
}

/// `bytes::Bytes`, a buffer of bytes.
#[verifier::external_type_specification]
#[verifier::external_body]
pub struct ExBytes(bytes::Bytes);

/// The bytes that a `bytes::Bytes` holds, in order.
pub uninterp spec fn bytes_of(buffer: bytes::Bytes) -> Seq<u8>;

/// Calls `bytes::Bytes::from` on a `String`: the buffer holds the bytes of
/// the text, which are its UTF-8 encoding.
#[verifier::external_body]
fn text_into_bytes(text: String) -> (buffer: bytes::Bytes)
    ensures
        bytes_of(buffer) == vstd::utf8::encode_utf8(text@),
{
    bytes::Bytes::from(text)
}

/// What the hub's stream gave the live feed for one notification.
#[derive(Debug)]
pub enum FeedItem {
    /// A request, written as JSON.
    Serialized(String),
    /// A request that could not be written as JSON.
    Unserializable,
    /// Word that this observer fell behind and missed so many notifications.
    Lagged(u64),
}

/// The text of the frame that carries `json`: a `data:` line and a blank
/// line.
pub open spec fn frame_text(json: Seq<char>) -> Seq<char> {
    "data: "@ + json + "\n\n"@
}

/// Frames `json` as one event of the feed.
pub fn sse_frame(json: &str) -> (frame: String)
    ensures
        frame@ == frame_text(json@),
{
    "data: ".to_owned().concat(json).concat("\n\n")
}

/// The frame owed to an observer for `item`: one for each request that could
/// be written, none for anything else. What yields no frame is skipped and
/// does not end the feed.
pub fn feed_frame(item: FeedItem) -> (frame: Option<bytes::Bytes>)
    ensures
        match item {
            FeedItem::Serialized(json) => frame matches Some(buffer) && bytes_of(buffer)
                == vstd::utf8::encode_utf8(frame_text(json@)),
            _ => frame.is_none(),
        },
{
    match item {
        FeedItem::Serialized(json) => Some(text_into_bytes(sse_frame(json.as_str()))),
        _ => None,
    }
}

} // verus!

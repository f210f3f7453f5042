use crate::errors::WsError;
use crate::text::is_valid_utf8;
use vstd::prelude::*;
use vstd::string::StrSliceExecFns;
use vstd::utf8::encode_utf8;
use vstd::utf8::encode_utf8_valid_utf8;
use vstd::utf8::valid_utf8;

verus! {

/// The one outbound protocol message, with its framing already decided:
/// a Text frame for payloads that are valid text, a Binary frame otherwise.
pub enum OutboundFrame {
    Text(Vec<u8>),
    Binary(Vec<u8>),
}

impl OutboundFrame {
    /// The bytes the frame carries.
    pub open spec fn payload(&self) -> Seq<u8> {
        match self {
            OutboundFrame::Text(d) => d@,
            OutboundFrame::Binary(d) => d@,
        }
    }
}

/// Decide the framing of an outbound payload: Text exactly when the bytes are
/// a valid text encoding, Binary otherwise. The payload itself is never
/// altered.
pub fn frame_payload(data: Vec<u8>) -> (r: OutboundFrame)
    ensures
        r.payload() == data@,
        r matches OutboundFrame::Text(_) <==> valid_utf8(data@),
{
    if is_valid_utf8(data.as_slice()) {
        OutboundFrame::Text(data)
    } else {
        OutboundFrame::Binary(data)
    }
}

/// What the host pipeline supplied as input: nothing, a text value, a binary
/// value, or some other kind of value the engine does not accept.
pub enum PipelineInput {
    Empty,
    Text(String),
    Binary(Vec<u8>),
    Other,
}

/// Decide what, if anything, is sent before streaming begins: nothing when no
/// input was supplied, exactly one framed message for text or binary input,
/// and a malformed-input failure for any other kind of value.
pub fn plan_send(input: PipelineInput) -> (r: Result<Option<OutboundFrame>, WsError>)
    ensures
        input is Empty ==> (r matches Ok(f) && f is None),
        (input matches PipelineInput::Text(s) ==> r matches Ok(f) && f matches Some(fr)
            && fr matches OutboundFrame::Text(d) && d@ == encode_utf8(s@)),
        (input matches PipelineInput::Binary(b) ==> r matches Ok(f) && f matches Some(fr)
            && fr.payload() == b@ && (fr matches OutboundFrame::Text(_) <==> valid_utf8(b@))),
        input is Other ==> (r matches Err(e) && e == WsError::MalformedInput),
{
    match input {
        PipelineInput::Empty => Ok(None),
        PipelineInput::Text(s) => {
            let data = s.as_str().as_bytes_vec();
            proof {
                encode_utf8_valid_utf8(s@);
            }
            Ok(Some(frame_payload(data)))
        },
        PipelineInput::Binary(b) => Ok(Some(frame_payload(b))),
        PipelineInput::Other => Err(WsError::MalformedInput),
    }
}

} // verus!

use vstd::prelude::*;

verus! {

/// A chunk is the byte payload of one inbound Text or Binary message with
/// exactly one newline byte appended, unconditionally — even when the payload
/// is empty and even when it already ends with a newline.
pub open spec fn chunk_of(payload: Seq<u8>) -> Seq<u8> {
    payload + seq![10u8]
}

/// Append the single trailing newline that turns a message payload into a chunk.
pub fn make_chunk(payload: Vec<u8>) -> (r: Vec<u8>)
    ensures
        r@ == chunk_of(payload@),
{
    let mut data = payload;
    data.push(10u8);
    proof {
        assert(data@ =~= chunk_of(data@.drop_last()));
    }
    data
}

/// One protocol-level message, as the receiver loop classifies it: the two
/// data-bearing kinds, the close signal, and the control frames (ping, pong,
/// raw frames) that carry no data for the consumer.
pub enum InboundMessage {
    Text(Vec<u8>),
    Binary(Vec<u8>),
    Close,
    Control,
}

/// What one iteration of the receiver loop observed: either a message was
/// received, or the protocol-level receive failed.
pub enum RecvEvent {
    Msg(InboundMessage),
    Failed,
}

/// The effect one receiver-loop iteration must have: forward a chunk to the
/// channel, terminate the loop (dropping the producer end of the channel,
/// which signals end-of-data), or ignore the event and keep looping.
pub enum LoopAction {
    Deliver(Vec<u8>),
    Stop,
    Ignore,
}

/// Whether a message carries data for the consumer.
pub open spec fn is_data(m: InboundMessage) -> bool {
    m matches InboundMessage::Text(_) || m matches InboundMessage::Binary(_)
}

/// The byte payload of a data-bearing message.
pub open spec fn payload_of(m: InboundMessage) -> Seq<u8>
    recommends
        is_data(m),
{
    match m {
        InboundMessage::Text(p) => p@,
        InboundMessage::Binary(p) => p@,
        _ => Seq::empty(),
    }
}

/// The payloads of the data-bearing messages of an arrival sequence, in
/// arrival order.
pub open spec fn data_payloads(msgs: Seq<InboundMessage>) -> Seq<Seq<u8>>
    decreases msgs.len(),
{
    if msgs.len() == 0 {
        Seq::empty()
    } else if is_data(msgs[0]) {
        seq![payload_of(msgs[0])] + data_payloads(msgs.skip(1))
    } else {
        data_payloads(msgs.skip(1))
    }
}

/// The chunks an arrival sequence puts on the channel, in arrival order.
pub open spec fn chunks_of(msgs: Seq<InboundMessage>) -> Seq<Seq<u8>>
    decreases msgs.len(),
{
    if msgs.len() == 0 {
        Seq::empty()
    } else if is_data(msgs[0]) {
        seq![chunk_of(payload_of(msgs[0]))] + chunks_of(msgs.skip(1))
    } else {
        chunks_of(msgs.skip(1))
    }
}

/// Classify one receiver-loop event and produce its effect. A Text or Binary
/// message is normalized into exactly one chunk; a Close message and a
/// receive failure both terminate the loop; any other protocol frame is
/// ignored.
pub fn on_event(event: RecvEvent) -> (r: LoopAction)
    ensures
        (match event {
            RecvEvent::Msg(m) => {
                if is_data(m) {
                    r matches LoopAction::Deliver(c) && c@ == chunk_of(payload_of(m))
                } else if m is Close {
                    r is Stop
                } else {
                    r is Ignore
                }
            },
            RecvEvent::Failed => r is Stop,
        }),
{
    match event {
        RecvEvent::Msg(InboundMessage::Text(payload)) => LoopAction::Deliver(make_chunk(payload)),
        RecvEvent::Msg(InboundMessage::Binary(payload)) => LoopAction::Deliver(make_chunk(payload)),
        RecvEvent::Msg(InboundMessage::Close) => LoopAction::Stop,
        RecvEvent::Msg(InboundMessage::Control) => LoopAction::Ignore,
        RecvEvent::Failed => LoopAction::Stop,
    }
}

/// Whether the channel accepted a forwarded chunk, or the consumer side of
/// the channel is gone.
pub enum PushResult {
    Accepted,
    ConsumerGone,
}

/// What the receiver loop does after forwarding a chunk.
pub enum FollowUp {
    /// Keep looping: the chunk was handed over.
    Continue,
    /// Send one normal-closure Close frame with this reason, then stop.
    CloseAndStop(String),
}

/// Decide the loop's reaction to a push: an accepted chunk keeps the loop
/// running; a consumer that is gone makes it close the connection normally,
/// with a fixed reason, and stop.
pub fn after_push(result: PushResult) -> (r: FollowUp)
    ensures
        result is Accepted ==> r is Continue,
        (result is ConsumerGone ==> (r matches FollowUp::CloseAndStop(reason) && reason@
            == "byte stream closed"@)),
{
    match result {
        PushResult::Accepted => FollowUp::Continue,
        PushResult::ConsumerGone => FollowUp::CloseAndStop("byte stream closed".to_owned()),
    }
}

/// Law: over any arrival sequence, each Text or Binary message maps to exactly
/// one chunk, in arrival order, and each chunk is that message's payload with
/// exactly one newline byte appended.
pub proof fn lemma_chunks_in_arrival_order(msgs: Seq<InboundMessage>)
    ensures
        chunks_of(msgs).len() == data_payloads(msgs).len(),
        forall|i: int|
            0 <= i < chunks_of(msgs).len() ==> #[trigger] chunks_of(msgs)[i] == chunk_of(
                data_payloads(msgs)[i],
            ),
        forall|i: int|
            0 <= i < chunks_of(msgs).len() ==> {
                &&& (#[trigger] chunks_of(msgs)[i]).len() == data_payloads(msgs)[i].len() + 1
                &&& chunks_of(msgs)[i].last() == 10u8
                &&& chunks_of(msgs)[i].drop_last() == data_payloads(msgs)[i]
            },
    decreases msgs.len(),
{
    if msgs.len() > 0 {
        lemma_chunks_in_arrival_order(msgs.skip(1));
    }
    assert forall|i: int| 0 <= i < chunks_of(msgs).len() implies {
        &&& (#[trigger] chunks_of(msgs)[i]).len() == data_payloads(msgs)[i].len() + 1
        &&& chunks_of(msgs)[i].last() == 10u8
        &&& chunks_of(msgs)[i].drop_last() == data_payloads(msgs)[i]
    } by {
        assert(chunks_of(msgs)[i] == chunk_of(data_payloads(msgs)[i]));
        assert(chunk_of(data_payloads(msgs)[i]).drop_last() =~= data_payloads(msgs)[i]);
    }
}

} // verus!

use nu_plugin_ws::chunk::{make_chunk, on_event, InboundMessage, LoopAction, RecvEvent};
use nu_plugin_ws::errors::WsError;
use nu_plugin_ws::frame::{frame_payload, plan_send, OutboundFrame, PipelineInput};
use nu_plugin_ws::numeral::{dec_string, int_string};
use nu_plugin_ws::text::is_valid_utf8;

#[test]
fn each_data_message_becomes_exactly_one_chunk_with_newline() {
    match on_event(RecvEvent::Msg(InboundMessage::Text(b"hi".to_vec()))) {
        LoopAction::Deliver(c) => assert_eq!(c, b"hi\n".to_vec()),
        _ => panic!("a Text message must be delivered"),
    }
    match on_event(RecvEvent::Msg(InboundMessage::Binary(vec![0, 255]))) {
        LoopAction::Deliver(c) => assert_eq!(c, vec![0, 255, 10]),
        _ => panic!("a Binary message must be delivered"),
    }
}

#[test]
fn newline_is_appended_even_on_empty_or_newline_terminated_payloads() {
    assert_eq!(make_chunk(Vec::new()), b"\n".to_vec());
    assert_eq!(make_chunk(b"x\n".to_vec()), b"x\n\n".to_vec());
}

#[test]
fn close_error_and_control_events_act_as_designed() {
    assert!(matches!(
        on_event(RecvEvent::Msg(InboundMessage::Close)),
        LoopAction::Stop
    ));
    assert!(matches!(on_event(RecvEvent::Failed), LoopAction::Stop));
    assert!(matches!(
        on_event(RecvEvent::Msg(InboundMessage::Control)),
        LoopAction::Ignore
    ));
}

#[test]
fn hello_goes_as_text_and_invalid_bytes_as_binary() {
    match plan_send(PipelineInput::Binary(b"hello".to_vec())) {
        Ok(Some(OutboundFrame::Text(d))) => assert_eq!(d, b"hello".to_vec()),
        _ => panic!("valid text bytes must frame as Text"),
    }
    match plan_send(PipelineInput::Binary(vec![0xFF, 0xFE])) {
        Ok(Some(OutboundFrame::Binary(d))) => assert_eq!(d, vec![0xFF, 0xFE]),
        _ => panic!("invalid text bytes must frame as Binary"),
    }
}

#[test]
fn string_input_always_frames_as_text() {
    match plan_send(PipelineInput::Text("hello".to_string())) {
        Ok(Some(OutboundFrame::Text(d))) => assert_eq!(d, b"hello".to_vec()),
        _ => panic!("string input must frame as Text"),
    }
}

#[test]
fn empty_input_sends_nothing_and_other_input_is_malformed() {
    assert!(matches!(plan_send(PipelineInput::Empty), Ok(None)));
    assert!(matches!(
        plan_send(PipelineInput::Other),
        Err(WsError::MalformedInput)
    ));
}

#[test]
fn utf8_validator_agrees_with_the_standard_library() {
    let cases: Vec<Vec<u8>> = vec![
        b"".to_vec(),
        b"hello".to_vec(),
        "héllo wörld".as_bytes().to_vec(),
        "😀".as_bytes().to_vec(),
        vec![0xFF],
        vec![0xFF, 0xFE],
        vec![0xC0, 0xAF],             // overlong two-byte form
        vec![0xE0, 0x80, 0x80],       // overlong three-byte form
        vec![0xED, 0xA0, 0x80],       // surrogate
        vec![0xF4, 0x90, 0x80, 0x80], // above the last scalar
        vec![0xE2, 0x82],             // truncated
        vec![0xC2],                   // truncated
        vec![0x80],                   // stray continuation byte
        vec![0xC3, 0xA9],             // é
        vec![0xF0, 0x9F, 0x98, 0x80], // emoji
        vec![0xED, 0x9F, 0xBF],       // last scalar before the surrogates
        vec![0xEE, 0x80, 0x80],       // first scalar after the surrogates
    ];
    for bytes in cases {
        assert_eq!(
            is_valid_utf8(&bytes),
            std::str::from_utf8(&bytes).is_ok(),
            "validator disagrees on {:?}",
            bytes
        );
    }
}

#[test]
fn decimal_rendering_matches_expected_values() {
    assert_eq!(dec_string(0), "0".to_string());
    assert_eq!(dec_string(7), "7".to_string());
    assert_eq!(dec_string(65535), "65535".to_string());
    assert_eq!(dec_string(u64::MAX), "18446744073709551615".to_string());
    assert_eq!(int_string(-5), "-5".to_string());
    assert_eq!(int_string(0), "0".to_string());
    assert_eq!(int_string(i64::MIN), "-9223372036854775808".to_string());
}

#[test]
fn frame_payload_keeps_the_payload_unaltered() {
    match frame_payload(b"abc".to_vec()) {
        OutboundFrame::Text(d) => assert_eq!(d, b"abc".to_vec()),
        OutboundFrame::Binary(_) => panic!("abc is valid text"),
    }
}

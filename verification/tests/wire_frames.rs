use entrypoint::protocol::{
    decode_i32, encode_i32, interrupt_frame, poll_decision, reduced_exit_status,
    response_body_len, PollAction, ReadStatus, INTERRUPT_SIGNAL_NUMBER, POLL_INTERVAL_MS,
};

#[test]
fn length_codec_round_trips() {
    for v in [0, 1, -1, 42, i32::MAX, i32::MIN, -123456, 1 << 20] {
        let bytes = encode_i32(v);
        assert_eq!(bytes.len(), 4);
        assert_eq!(decode_i32(&bytes), v);
    }
}

#[test]
fn length_codec_matches_native_byte_order() {
    // The servers this client talks to read native-endian words; on
    // every supported platform that is little-endian.
    for v in [0, 7, -9, i32::MAX, i32::MIN] {
        assert_eq!(encode_i32(v), v.to_ne_bytes().to_vec());
        assert_eq!(decode_i32(&v.to_ne_bytes().to_vec()), v);
    }
}

#[test]
fn specific_encodings() {
    assert_eq!(encode_i32(0), vec![0, 0, 0, 0]);
    assert_eq!(encode_i32(1), vec![1, 0, 0, 0]);
    assert_eq!(encode_i32(0x1234_5678), vec![0x78, 0x56, 0x34, 0x12]);
    assert_eq!(decode_i32(&vec![0xFF, 0xFF, 0xFF, 0xFF]), -1);
}

#[test]
fn body_length_rejects_negative_headers() {
    assert_eq!(response_body_len(&encode_i32(17)), Some(17));
    assert_eq!(response_body_len(&encode_i32(0)), Some(0));
    assert_eq!(response_body_len(&encode_i32(-1)), None);
    assert_eq!(response_body_len(&encode_i32(i32::MIN)), None);
}

#[test]
fn reduced_profile_reads_the_header_as_exit_status() {
    assert_eq!(reduced_exit_status(&encode_i32(3)), 3);
    assert_eq!(reduced_exit_status(&encode_i32(-7)), -7);
}

#[test]
fn interrupt_frame_is_the_encoded_sigint_number() {
    assert_eq!(INTERRUPT_SIGNAL_NUMBER, 2);
    assert_eq!(interrupt_frame(), encode_i32(2));
}

#[test]
fn poll_decisions() {
    assert_eq!(poll_decision(ReadStatus::Received, false), PollAction::Proceed);
    assert_eq!(poll_decision(ReadStatus::Received, true), PollAction::Proceed);
    assert_eq!(
        poll_decision(ReadStatus::WouldBlock, true),
        PollAction::ForwardInterruptThenWait
    );
    assert_eq!(poll_decision(ReadStatus::WouldBlock, false), PollAction::WaitThenRetry);
    assert_eq!(poll_decision(ReadStatus::Failed, false), PollAction::Abort);
    assert_eq!(poll_decision(ReadStatus::Failed, true), PollAction::Abort);
    assert_eq!(POLL_INTERVAL_MS, 10);
}

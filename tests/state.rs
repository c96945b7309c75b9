use audio_recorder::handles::Ptr;
use audio_recorder::state::{RecordState, TokenError};

#[test]
fn token_round_trips() {
    for &(flag, id) in &[(true, 0u64), (true, 5), (false, 77), (true, u64::MAX)] {
        let r = RecordState { is_recording: flag, processing_node: Ptr { id } };
        let s = r.to_string();
        assert_eq!(s.len(), 12);
        assert_eq!(RecordState::from_string(&s), Ok(r));
    }
}

#[test]
fn bytes_are_flag_then_little_endian_id() {
    let r = RecordState { is_recording: true, processing_node: Ptr { id: 0x0102030405060708 } };
    assert_eq!(r.to_bytes(), vec![1, 8, 7, 6, 5, 4, 3, 2, 1]);
    let r = RecordState { is_recording: false, processing_node: Ptr { id: 3 } };
    assert_eq!(r.to_bytes(), vec![0, 3, 0, 0, 0, 0, 0, 0, 0]);
}

#[test]
fn token_text_is_base64_of_bytes() {
    let r = RecordState { is_recording: true, processing_node: Ptr { id: 0 } };
    assert_eq!(r.to_string(), "AQAAAAAAAAAA");
    let r = RecordState { is_recording: true, processing_node: Ptr { id: 1 } };
    assert_eq!(r.to_string(), "AQEAAAAAAAAA");
}

#[test]
fn from_bytes_reads_layout_and_ignores_trailing_bytes() {
    let r = RecordState::from_bytes(&[1, 2, 0, 0, 0, 0, 0, 0, 0, 99]);
    assert_eq!(r, Ok(RecordState { is_recording: true, processing_node: Ptr { id: 2 } }));
}

#[test]
fn from_bytes_rejects_bad_flag_and_short_input() {
    assert_eq!(RecordState::from_bytes(&[2, 0, 0, 0, 0, 0, 0, 0, 0]), Err(TokenError::BadLayout));
    assert_eq!(RecordState::from_bytes(&[1, 0, 0]), Err(TokenError::BadLayout));
    assert_eq!(RecordState::from_bytes(&[]), Err(TokenError::BadLayout));
}

#[test]
fn from_string_rejects_text_that_is_not_base64() {
    assert_eq!(RecordState::from_string("not base64!"), Err(TokenError::NotBase64));
}

#[test]
fn from_string_rejects_short_payload() {
    // "AQID" is the base64 text of the three bytes 1, 2, 3.
    assert_eq!(RecordState::from_string("AQID"), Err(TokenError::BadLayout));
}

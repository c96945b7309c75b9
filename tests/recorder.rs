use std::cell::Cell;
use adhoc_audio::{AdhocCodec, Streamable};
use audio_recorder::handles::Ptr;
use audio_recorder::recorder::{activation, Activation, AppState, TriggerError, BLOCK_SIZE};
use audio_recorder::state::{RecordState, TokenError};

#[test]
fn idle_trigger_starts_and_token_stops() {
    let mut app: AppState<u32> = AppState::init();
    assert_eq!(activation(None), Ok(Activation::Start));
    let (p, token) = app.start_recording(7).unwrap();
    assert_eq!(app.processor_list.len(), 1);
    assert_eq!(activation(Some(&token)), Ok(Activation::Stop(p)));
    assert_eq!(app.processor_list.get(p), Some(&7));
    assert_eq!(app.stop_recording(p, |_| {}), Some(7));
    assert_eq!(app.processor_list.len(), 0);
    assert_eq!(activation(None), Ok(Activation::Start));
}

#[test]
fn stop_detaches_while_processor_is_listed() {
    let mut app: AppState<Cell<bool>> = AppState::init();
    let (p, _) = app.start_recording(Cell::new(true)).unwrap();
    let stopped = app.stop_recording(p, |node: &Cell<bool>| node.set(false)).unwrap();
    assert!(!stopped.get());
    assert_eq!(app.processor_list.len(), 0);
    let called = Cell::new(false);
    let again = app.stop_recording(p, |_| called.set(true));
    assert!(again.is_none());
    assert!(!called.get());
}

#[test]
fn token_that_is_not_recording_is_refused() {
    let r = RecordState { is_recording: false, processing_node: Ptr { id: 0 } };
    assert_eq!(activation(Some(&r.to_string())), Err(TriggerError::NotRecording));
}

#[test]
fn corrupt_token_is_refused() {
    assert_eq!(activation(Some("%%%")), Err(TriggerError::Token(TokenError::NotBase64)));
    assert_eq!(activation(Some("AQID")), Err(TriggerError::Token(TokenError::BadLayout)));
}

#[test]
fn start_stop_keeps_list_size() {
    let mut app: AppState<&str> = AppState::init();
    let (a, _) = app.start_recording("first").unwrap();
    let before = app.processor_list.len();
    let (b, _) = app.start_recording("second").unwrap();
    assert_eq!(app.stop_recording(b, |_| {}), Some("second"));
    assert_eq!(app.processor_list.len(), before);
    assert_eq!(app.processor_list.get(a), Some(&"first"));
}

#[test]
fn zero_blocks_survive_submit_and_decode() {
    let mut app: AppState<u32> = AppState::init();
    let (p, _) = app.start_recording(1).unwrap();
    let block = vec![0.0f32; BLOCK_SIZE as usize];
    for _ in 0..10 {
        app.audio_codec.encode(&block);
    }
    app.stop_recording(p, |_| {});
    assert_eq!(app.processor_list.len(), 0);
    let bytes = app.submit().unwrap();
    assert!(!bytes.is_empty());
    assert_eq!(app.audio_codec.info().frequency(), 44100);
    assert_eq!(app.audio_codec.info().channels(), 1);
    let mut codec = AdhocCodec::load(&bytes[..]).unwrap();
    let mut buffer = [0.0f32; 1024];
    let mut total = 0usize;
    while let Some(n) = codec.decode(&mut buffer) {
        assert!(buffer[..n].iter().all(|s| s.abs() <= 1e-2));
        total += n;
    }
    assert_eq!(total, 10 * 1024);
}

#[test]
fn codec_takes_samples_after_submit() {
    let mut app: AppState<u32> = AppState::init();
    app.audio_codec.encode(&[0.25f32; 1024]);
    let first = app.submit().unwrap();
    assert!(!first.is_empty());
    app.audio_codec.encode(&[0.5f32; 1024]);
    let second = app.submit().unwrap();
    assert!(!second.is_empty());
}

#[test]
fn submit_returns_the_saved_codec_bytes() {
    let mut app: AppState<u32> = AppState::init();
    let mut twin = audio_recorder::codec::session_codec();
    let block = [0.125f32; 1024];
    app.audio_codec.encode(&block);
    twin.encode(&block);
    let mut expected = Vec::new();
    twin.save_to(&mut expected).unwrap();
    assert_eq!(app.submit().unwrap(), expected);
}

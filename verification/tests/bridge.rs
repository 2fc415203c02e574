use monsoon::bridge::{file_extension, Rqstream, StreamId};
use monsoon::lifecycle::{EngineCall, Failed, Lifecycle, MediaLifecycle};
use monsoon::range::StreamError;

#[test]
fn a_registered_path_is_found() {
    let mut b = Rqstream::new();
    let id = b.stream_file(7, 1, "Show - 01.mkv", "9_e0".to_string());
    let f = b.resolve("9_e0").unwrap();
    assert_eq!(f.path, "9_e0");
    assert_eq!(f.mime, "video/x-matroska");
    assert_eq!((f.torrent, f.file_id), (7, 1));
    assert_eq!(b.resolve("9_e1").err(), Some(StreamError::NoRoute));
    let other = b.stream_file(8, 0, "clip.mp4", "9_e1".to_string());
    assert_ne!(id, other);
    assert_eq!(b.resolve("9_e1").unwrap().mime, "video/mp4");
    assert_eq!(b.resolve("9_e0").unwrap().torrent, 7);
}

#[test]
fn unknown_extensions_are_octet_streams() {
    let mut b = Rqstream::new();
    b.stream_file(1, 0, "file.zzzunknown", "p".to_string());
    assert_eq!(b.resolve("p").unwrap().mime, "application/octet-stream");
    b.stream_file(1, 0, "noextension", "q".to_string());
    assert_eq!(b.resolve("q").unwrap().mime, "application/octet-stream");
}

#[test]
fn a_stopped_stream_is_not_found() {
    let mut b = Rqstream::new();
    let id = b.stream_file(7, 1, "a.mkv", "x".to_string());
    let keep = b.stream_file(7, 2, "b.mkv", "y".to_string());
    let gone = b.stop_streaming(id).unwrap();
    assert_eq!(gone.path, "x");
    assert_eq!(gone.file_id, 1);
    assert_eq!(b.resolve("x").err(), Some(StreamError::NoRoute));
    assert_eq!(b.resolve("y").unwrap().file_id, 2);
    assert!(b.stop_streaming(id).is_none());
    assert!(b.stop_streaming(StreamId(99)).is_none());
    assert_eq!(b.resolve("y").unwrap().file_id, 2);
    let again = b.stream_file(7, 3, "c.mkv", "x".to_string());
    assert_eq!(b.resolve("x").unwrap().file_id, 3);
    assert_ne!(again, keep);
}

#[test]
fn a_path_leads_to_its_latest_stream() {
    let mut b = Rqstream::new();
    let first = b.stream_file(1, 0, "a.mkv", "x".to_string());
    let second = b.stream_file(2, 0, "b.mp4", "x".to_string());
    assert_ne!(first, second);
    assert_eq!(b.resolve("x").unwrap().torrent, 2);
    assert!(b.stop_streaming(first).is_some());
    assert_eq!(b.resolve("x").err(), Some(StreamError::NoRoute));
    assert!(b.stop_streaming(second).is_some());
}

#[test]
fn resume_twice_registers_once() {
    let mut l = Lifecycle::new();
    assert_eq!(l.first_call(MediaLifecycle::Resume), Some(EngineCall::StreamFile));
    l.advance(MediaLifecycle::Resume, Some(StreamId(3)));
    assert_eq!(l.second_call(MediaLifecycle::Resume, true), Some(EngineCall::Unpause));
    assert_eq!(l.first_call(MediaLifecycle::Resume), None);
    l.advance(MediaLifecycle::Resume, Some(StreamId(4)));
    assert_eq!(l.stream, Some(StreamId(3)));
    assert_eq!(l.second_call(MediaLifecycle::Resume, false), None);
    assert!(!l.is_terminal());
}

#[test]
fn a_failed_registration_is_tried_again() {
    let mut l = Lifecycle::new();
    l.advance(MediaLifecycle::Resume, None);
    assert_eq!(l.stream, None);
    assert_eq!(l.first_call(MediaLifecycle::Resume), Some(EngineCall::StreamFile));
    assert_eq!(Lifecycle::outcome(false, true), Err(Failed::First));
    assert_eq!(Lifecycle::outcome(false, false), Err(Failed::First));
    assert_eq!(Lifecycle::outcome(true, false), Err(Failed::Second));
    assert_eq!(Lifecycle::outcome(true, true), Ok(()));
}

#[test]
fn pause_and_destroy() {
    let mut l = Lifecycle::new();
    assert_eq!(l.first_call(MediaLifecycle::Pause), Some(EngineCall::Pause));
    assert_eq!(l.second_call(MediaLifecycle::Pause, true), None);
    assert_eq!(l.first_call(MediaLifecycle::Destroy), None);
    l.advance(MediaLifecycle::Resume, Some(StreamId(1)));
    assert_eq!(l.first_call(MediaLifecycle::Destroy), Some(EngineCall::StopStreaming(StreamId(1))));
    l.advance(MediaLifecycle::Destroy, None);
    assert!(l.is_terminal());
    assert_eq!(l.first_call(MediaLifecycle::Resume), None);
    assert_eq!(l.first_call(MediaLifecycle::Pause), None);
    assert_eq!(l.second_call(MediaLifecycle::Resume, true), None);
}

#[test]
fn destroy_tears_the_route_down() {
    let mut bridge = Rqstream::new();
    let mut l = Lifecycle::new();
    assert_eq!(l.first_call(MediaLifecycle::Resume), Some(EngineCall::StreamFile));
    let id = bridge.stream_file(1, 0, "ep.mkv", "5_e0".to_string());
    l.advance(MediaLifecycle::Resume, Some(id));
    assert!(bridge.resolve("5_e0").is_ok());
    match l.first_call(MediaLifecycle::Destroy) {
        Some(EngineCall::StopStreaming(s)) => assert!(bridge.stop_streaming(s).is_some()),
        other => panic!("{other:?}"),
    }
    l.advance(MediaLifecycle::Destroy, None);
    assert_eq!(bridge.resolve("5_e0").err(), Some(StreamError::NoRoute));
    assert_eq!(bridge.resolve("5_e0").err().unwrap().status(), 500);
}

#[test]
fn extensions_as_paths_have_them() {
    for path in [
        "a.mkv", "dir/a.mkv", "dir.x/a", "a.tar.gz", ".hidden", ".hidden.txt", "a.", "a", "", "/", "dir/",
        "dir.d/", "a.b/.", "a.b/./", "a.b//", "a.b/..", "..", ".", "./a.c", "x/../y.z", "...", "a..b", "é.mp4",
    ] {
        let expected = std::path::Path::new(path).extension().and_then(|e| e.to_str()).map(String::from);
        assert_eq!(file_extension(path), expected, "{path:?}");
    }
}

#[test]
fn the_type_goes_by_the_extension_of_the_file_name() {
    let mut b = Rqstream::new();
    b.stream_file(1, 0, "Season 1/Show - 01.MKV", "a".to_string());
    assert_eq!(b.resolve("a").unwrap().mime, "video/x-matroska");
    b.stream_file(1, 0, "dir.mkv/readme", "b".to_string());
    assert_eq!(b.resolve("b").unwrap().mime, "application/octet-stream");
    b.stream_file(1, 0, ".mkv", "c".to_string());
    assert_eq!(b.resolve("c").unwrap().mime, "application/octet-stream");
    b.stream_file(1, 0, "clip.mp4/", "d".to_string());
    assert_eq!(b.resolve("d").unwrap().mime, "video/mp4");
}

use transcribe_rs::config::WatchConfig;
use transcribe_rs::file_watcher::{
    append_chunk_text, conversion_plan, prepare_failure, transcript_path, FileWatcher, WatchEvent,
};

fn watcher(extensions: &[&str], debounce_ms: u64) -> FileWatcher {
    let mut config = WatchConfig::default_in("/cfg");
    config.extensions = extensions.iter().map(|e| e.to_string()).collect();
    config.debounce_ms = debounce_ms;
    FileWatcher::new(&config)
}

fn event(paths: &[(&str, u64)]) -> Vec<(String, u64)> {
    paths.iter().map(|(p, s)| (p.to_string(), *s)).collect()
}

#[test]
fn watcher_tracks_audio_files_outside_processed() {
    let w = watcher(&["WAV", "m4a"], 1000);
    assert!(w.tracks("/w/a.wav"));
    assert!(w.tracks("/w/a.M4A"));
    assert!(!w.tracks("/w/a.mp3"));
    assert!(!w.tracks("/w/processed/a.wav"));
    assert!(!w.tracks("/w/a"));
}

#[test]
fn watcher_debounces_until_file_settles() {
    let mut w = watcher(&["wav", "m4a"], 1000);
    w.on_event(event(&[("/w/a.wav", 100), ("/w/notes.txt", 5), ("/w/processed/b.wav", 7)]), 0);
    assert_eq!(w.pending_paths(), vec!["/w/a.wav".to_string()]);
    w.on_event(event(&[("/w/c.M4A", 50)]), 500);
    assert_eq!(w.pending_paths(), vec!["/w/a.wav".to_string(), "/w/c.M4A".to_string()]);

    // not yet settled
    assert!(w.take_ready(999, &[100, 50]).is_empty());
    assert_eq!(w.pending_paths().len(), 2);

    // the first file has been quiet for a full second
    assert_eq!(w.take_ready(1000, &[100, 50]), vec!["/w/a.wav".to_string()]);
    assert_eq!(w.pending_paths(), vec!["/w/c.M4A".to_string()]);

    // a file whose size changed, or that is empty, keeps waiting
    assert!(w.take_ready(1600, &[60]).is_empty());
    assert!(w.take_ready(1600, &[0]).is_empty());
    assert_eq!(w.pending_paths(), vec!["/w/c.M4A".to_string()]);

    // a new change restarts the wait with the new size
    w.on_event(event(&[("/w/c.M4A", 60)]), 1600);
    assert_eq!(w.pending_paths().len(), 1);
    assert!(w.take_ready(2599, &[60]).is_empty());
    assert_eq!(w.take_ready(2600, &[60]), vec!["/w/c.M4A".to_string()]);
    assert!(w.pending_paths().is_empty());
}

#[test]
fn watcher_scan_notes_existing_files() {
    let mut w = watcher(&["wav"], 0);
    let found = vec![
        ("/w/x.wav".to_string(), true, 10),
        ("/w/dir.wav".to_string(), false, 10),
        ("/w/empty.wav".to_string(), true, 0),
        ("/w/q.txt".to_string(), true, 3),
        ("/w/processed/p.wav".to_string(), true, 3),
    ];
    assert_eq!(w.on_scan(found, 5), 1);
    assert_eq!(w.pending_paths(), vec!["/w/x.wav".to_string()]);
    assert_eq!(w.take_ready(5, &[10]), vec!["/w/x.wav".to_string()]);
}

#[test]
fn conversion_plans() {
    assert!(conversion_plan("/w/a.WAV").is_none());
    assert!(conversion_plan("/w/a.wav").is_none());
    let (wav, args) = conversion_plan("/w/rec.m4a").unwrap();
    assert_eq!(wav, "/tmp/transcribe_watch_rec.wav");
    assert_eq!(
        args,
        vec!["-y", "-i", "/w/rec.m4a", "-ar", "16000", "-ac", "1", "-f", "wav", "/tmp/transcribe_watch_rec.wav"]
    );
    let (wav, _) = conversion_plan("/w/noext").unwrap();
    assert_eq!(wav, "/tmp/transcribe_watch_noext.wav");
    let (wav, _) = conversion_plan("/w/two.parts.mp3").unwrap();
    assert_eq!(wav, "/tmp/transcribe_watch_two.parts.wav");
}

#[test]
fn prepare_failure_message() {
    match prepare_failure("/w/a.m4a", "boom") {
        WatchEvent::Error(m) => assert_eq!(m, "Failed to prepare /w/a.m4a: boom"),
        other => panic!("unexpected event {:?}", other),
    }
}

#[test]
fn chunk_texts_are_joined_by_spaces() {
    let t = append_chunk_text(String::new(), "first part");
    assert_eq!(t, "first part");
    let t = append_chunk_text(t, "second");
    assert_eq!(t, "first part second");
    let t = append_chunk_text(t, "");
    assert_eq!(t, "first part second");
    assert_eq!(append_chunk_text(String::new(), ""), "");
}

#[test]
fn transcripts_are_named_after_the_recording() {
    assert_eq!(transcript_path("/w", "/w/meeting.m4a"), "/w/meeting.txt");
    assert_eq!(transcript_path("/w/", "/w/notes.v2.wav"), "/w/notes.v2.txt");
    assert_eq!(transcript_path("/w", "/"), "/w/transcription.txt");
}

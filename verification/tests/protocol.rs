use autotagger::session::{
    handle_message, should_close, waveform_ack, close_session, Command, CommandEnv, Response,
    Session,
};
use autotagger::tagger::{Tagger, FileStatus};
use autotagger::tageditor::{TagEditor, RawEntry};
use autotagger::track::{AudioFileInfo, TaggerConfig, MusicPlatform};
use autotagger::waveform::{CancellationToken, WaveformStream};

fn env() -> CommandEnv {
    CommandEnv {
        save_ok: true,
        settings_doc: None,
        browse_choice: None,
        root_valid: true,
        tag_events: vec![],
        source_duration: None,
        wave_chunks: vec![],
        quicktag_data: None,
        quicktag_saved: None,
    }
}

fn config(root: &str) -> TaggerConfig {
    TaggerConfig {
        path: String::from(root),
        threshold: 800,
        concurrency: 2,
        parse_cutoff: 50,
        platforms: vec![MusicPlatform::JunoDownload],
    }
}

#[test]
fn three_eligible_files_give_three_progress_events_then_done() {
    // Of five enumerated paths only three are eligible audio files; the
    // run reports exactly one event per eligible file, then the done
    // marker.
    let raw = vec![
        RawEntry { path: String::from("/root/a.mp3"), dir: false },
        RawEntry { path: String::from("/root/b.flac"), dir: false },
        RawEntry { path: String::from("/root/notes.txt"), dir: false },
        RawEntry { path: String::from("/root/.hidden.mp3"), dir: false },
        RawEntry { path: String::from("/root/c.aiff"), dir: false },
    ];
    let eligible = TagEditor::list_dir_recursive(&raw);
    assert_eq!(eligible.len(), 3);

    let cfg = config("/root");
    let files: Vec<AudioFileInfo> = eligible
        .iter()
        .map(|fe| AudioFileInfo {
            path: fe.path.clone(),
            title: fe.filename.clone(),
            artists: vec![String::from("A")],
        })
        .collect();
    let candidates = vec![None, None, None];
    let events = Tagger::tag_files(&files, &candidates, &cfg);
    assert_eq!(events.len(), 3);
    assert!(events.iter().all(|e| e.status == FileStatus::Error));

    let mut e = env();
    e.tag_events = events;
    let mut session = Session::new();
    let cmd = Command::StartTagging { config: Some(cfg) };
    let responses = handle_message(&mut session, &cmd, &e);
    assert_eq!(responses.len(), 4);
    let mut progress = 0;
    for (i, r) in responses.iter().enumerate() {
        match r {
            Response::TaggingProgress { path, .. } => {
                progress += 1;
                assert!(i < 3);
                // the run root is stripped for display
                assert!(path.starts_with('/'));
                assert!(!path.starts_with("/root"));
            }
            Response::TaggingDone => assert_eq!(i, 3),
            other => panic!("unexpected response: {:?}", std::mem::discriminant(other)),
        }
    }
    assert_eq!(progress, 3);
}

#[test]
fn invalid_root_gives_one_error() {
    let mut e = env();
    e.root_valid = false;
    let mut session = Session::new();
    let cmd = Command::StartTagging { config: Some(config("/missing")) };
    let responses = handle_message(&mut session, &cmd, &e);
    assert_eq!(responses.len(), 1);
    assert!(matches!(responses[0], Response::Error { .. }));
}

#[test]
fn missing_payload_fields_give_one_error() {
    let mut session = Session::new();
    let e = env();
    for cmd in [
        Command::StartTagging { config: None },
        Command::Waveform { path: None },
        Command::PlayerLoad { path: None },
        Command::PlayerSeek { pos: None },
        Command::PlayerVolume { volume: None },
        Command::QuicktagLoad { path: None },
        Command::QuicktagSave { changes: None },
        Command::SaveSettings { settings: None },
    ] {
        let responses = handle_message(&mut session, &cmd, &e);
        assert_eq!(responses.len(), 1);
        assert!(matches!(responses[0], Response::Error { .. }));
    }
}

#[test]
fn unknown_action_gives_no_response() {
    let mut session = Session::new();
    let responses = handle_message(&mut session, &Command::Unknown, &env());
    assert!(responses.is_empty());
}

#[test]
fn browse_answers_only_when_a_path_was_chosen() {
    let mut session = Session::new();
    let cmd = Command::Browse { context: String::from("ctx") };
    assert!(handle_message(&mut session, &cmd, &env()).is_empty());

    let mut e = env();
    e.browse_choice = Some(String::from("/picked"));
    let responses = handle_message(&mut session, &cmd, &e);
    assert_eq!(responses.len(), 1);
    match &responses[0] {
        Response::Browse { path, context } => {
            assert_eq!(path, "/picked");
            assert_eq!(context, "ctx");
        }
        _ => panic!("expected a browse response"),
    }
}

#[test]
fn load_settings_returns_the_document() {
    let mut session = Session::new();
    let mut e = env();
    e.settings_doc = Some(String::from("{\"volume\":5}"));
    let responses = handle_message(&mut session, &Command::LoadSettings, &e);
    assert_eq!(responses.len(), 1);
    match &responses[0] {
        Response::LoadSettings { settings } => assert_eq!(settings, "{\"volume\":5}"),
        _ => panic!("expected a settings response"),
    }
}

#[test]
fn player_commands_drive_the_session_player() {
    let mut session = Session::new();
    let mut e = env();
    e.source_duration = Some(240);
    let responses =
        handle_message(&mut session, &Command::PlayerLoad { path: Some(String::from("/a.mp3")) }, &e);
    assert_eq!(responses.len(), 1);
    assert!(matches!(responses[0], Response::PlayerLoad { duration: 240 }));
    assert!(session.player.loaded);
    assert!(!session.player.playing);

    assert!(handle_message(&mut session, &Command::PlayerPlay, &e).is_empty());
    assert!(session.player.playing);

    let responses = handle_message(&mut session, &Command::PlayerSeek { pos: Some(60) }, &e);
    assert_eq!(responses.len(), 1);
    assert!(matches!(responses[0], Response::PlayerSync { playing: true }));
    assert_eq!(session.player.position, 60);

    // seeking past the end clamps to the duration
    handle_message(&mut session, &Command::PlayerSeek { pos: Some(10_000) }, &e);
    assert_eq!(session.player.position, 240);

    assert!(handle_message(&mut session, &Command::PlayerVolume { volume: Some(2000) }, &e)
        .is_empty());
    assert_eq!(session.player.volume, 1000);

    assert!(handle_message(&mut session, &Command::PlayerPause, &e).is_empty());
    assert!(!session.player.playing);
}

#[test]
fn quicktag_round_trips_collaborator_results() {
    let mut session = Session::new();
    let mut e = env();
    e.quicktag_data = Some(String::from("[]"));
    let responses = handle_message(
        &mut session,
        &Command::QuicktagLoad { path: Some(String::from("/x.mp3")) },
        &e,
    );
    assert_eq!(responses.len(), 1);
    match &responses[0] {
        Response::QuicktagLoad { data } => assert_eq!(data, "[]"),
        _ => panic!("expected quicktag data"),
    }

    e.quicktag_saved = Some((String::from("/x.mp3"), String::from("{}")));
    let responses = handle_message(
        &mut session,
        &Command::QuicktagSave { changes: Some(String::from("{}")) },
        &e,
    );
    assert_eq!(responses.len(), 1);
    match &responses[0] {
        Response::QuicktagSaved { path, file } => {
            assert_eq!(path, "/x.mp3");
            assert_eq!(file, "{}");
        }
        _ => panic!("expected quicktag saved"),
    }
}

#[test]
fn waveform_command_streams_chunks_then_done() {
    let mut session = Session::new();
    let mut e = env();
    e.wave_chunks = vec![3, 8, 1];
    let responses = handle_message(
        &mut session,
        &Command::Waveform { path: Some(String::from("/a.mp3")) },
        &e,
    );
    assert_eq!(responses.len(), 4);
    assert!(matches!(responses[0], Response::WaveformWave { wave: 3 }));
    assert!(matches!(responses[1], Response::WaveformWave { wave: 8 }));
    assert!(matches!(responses[2], Response::WaveformWave { wave: 1 }));
    assert!(matches!(responses[3], Response::WaveformDone));
}

#[test]
fn closed_connection_cancels_stream_within_one_chunk() {
    // A connection that can no longer be written to signals the token;
    // the producer observes it at the next chunk boundary and emits
    // nothing further.
    let samples: Vec<i16> = vec![100, -200, 300, -400, 500, -600, 700, -800];
    let (mut stream, mut token) = WaveformStream::generate(&samples, 4);
    assert_eq!(stream.step(&token), Some(200));
    waveform_ack(true, &mut token);
    assert_eq!(stream.step(&token), Some(400));
    // the connection drops here
    waveform_ack(false, &mut token);
    assert!(token.requested);
    assert_eq!(stream.step(&token), None);
    assert!(stream.cancelled);
    assert_eq!(stream.step(&token), None);

    assert!(should_close(false, false));
    assert!(!should_close(false, true));
    assert!(!should_close(true, false));
    assert!(!should_close(true, true));
}

#[test]
fn closing_a_session_releases_player_and_cancels() {
    let mut session = Session::new();
    let mut e = env();
    e.source_duration = Some(10);
    handle_message(&mut session, &Command::PlayerLoad { path: Some(String::from("/a.mp3")) }, &e);
    let mut token = CancellationToken::new();
    close_session(&mut session, &mut token);
    assert!(token.requested);
    assert!(!session.player.loaded);
    assert!(!session.player.playing);
}

use autotagger::tageditor::{
    AudioFileFormat, CoverType, EditorError, Picture, RawEntry, TagEditor,
};
use autotagger::waveform::{bucket_amplitudes, CancellationToken, WaveformStream};
use base64::Engine;

#[test]
fn validate_path_accepts_supported_extensions_case_insensitively() {
    for p in ["/m/a.flac", "/m/b.MP3", "/m/c.Aif", "/m/d.AIFF"] {
        assert!(TagEditor::validate_path(&String::from(p), false).is_some(), "{}", p);
    }
    for p in ["/m/a.txt", "/m/b.wav", "/m/noext", "/m/.hidden.mp3"] {
        assert!(TagEditor::validate_path(&String::from(p), false).is_none(), "{}", p);
    }
    let fe = TagEditor::validate_path(&String::from("/m/sub"), true).expect("dirs are kept");
    assert!(fe.dir);
    assert_eq!(fe.filename, "sub");
    assert_eq!(fe.path, "/m/sub");
}

#[test]
fn list_dir_keeps_directories_but_recursive_drops_them() {
    let raw = vec![
        RawEntry { path: String::from("/m/sub"), dir: true },
        RawEntry { path: String::from("/m/a.mp3"), dir: false },
        RawEntry { path: String::from("/m/b.doc"), dir: false },
    ];
    let flat = TagEditor::list_dir(&raw);
    assert_eq!(flat.len(), 2);
    assert!(flat[0].dir);
    assert_eq!(flat[1].filename, "a.mp3");

    let rec = TagEditor::list_dir_recursive(&raw);
    assert_eq!(rec.len(), 1);
    assert_eq!(rec[0].filename, "a.mp3");
}

#[test]
fn load_file_joins_values_and_replaces_embedded_separators() {
    let tags = vec![
        (String::from("ARTIST"), vec![String::from("A"), String::from("B")]),
        (String::from("GENRE"), vec![String::from("House\u{0}Techno")]),
    ];
    let f = TagEditor::load_file(
        &String::from("/m/a.flac"),
        AudioFileFormat::Flac,
        &tags,
        vec![],
    )
    .expect("should load");
    assert_eq!(f.filename, "a.flac");
    assert_eq!(f.path, "/m/a.flac");
    assert_eq!(f.format, AudioFileFormat::Flac);
    assert_eq!(f.tags[0], (String::from("ARTIST"), String::from("A,B")));
    assert_eq!(f.tags[1], (String::from("GENRE"), String::from("House,Techno")));
    assert!(f.images.is_empty());
}

#[test]
fn load_file_rejects_empty_filename() {
    let r = TagEditor::load_file(&String::from("/m/"), AudioFileFormat::Mp3, &vec![], vec![]);
    assert_eq!(r.err(), Some(EditorError::InvalidFilename));
}

fn tiny_bmp() -> Vec<u8> {
    // a 1x1 white 24-bit BMP, byte by byte
    vec![
        0x42, 0x4D, 0x3A, 0x00, 0x00, 0x00, 0x00, 0x00, 0x00, 0x00, 0x36, 0x00, 0x00, 0x00, 0x28,
        0x00, 0x00, 0x00, 0x01, 0x00, 0x00, 0x00, 0x01, 0x00, 0x00, 0x00, 0x01, 0x00, 0x18, 0x00,
        0x00, 0x00, 0x00, 0x00, 0x04, 0x00, 0x00, 0x00, 0x13, 0x0B, 0x00, 0x00, 0x13, 0x0B, 0x00,
        0x00, 0x00, 0x00, 0x00, 0x00, 0x00, 0x00, 0x00, 0x00, 0xFF, 0xFF, 0xFF, 0x00,
    ]
}

#[test]
fn load_art_encodes_dimensions_and_data_uri() {
    let data = tiny_bmp();
    let expected_b64 = base64::engine::general_purpose::STANDARD.encode(&data);
    let img = TagEditor::load_art(Picture {
        kind: CoverType::CoverFront,
        description: String::from("front"),
        data,
        mime: String::from("image/bmp"),
    })
    .expect("bmp should decode");
    assert_eq!(img.width, 1);
    assert_eq!(img.height, 1);
    assert_eq!(img.kind, CoverType::CoverFront);
    assert_eq!(img.data, format!("data:image/bmp;base64,{}", expected_b64));
}

#[test]
fn load_art_rejects_undecodable_bytes() {
    let r = TagEditor::load_art(Picture {
        kind: CoverType::Other,
        description: String::new(),
        data: vec![1, 2, 3, 4],
        mime: String::from("image/png"),
    });
    assert_eq!(r.err(), Some(EditorError::UndecodableArt));
}

#[test]
fn load_file_keeps_only_decodable_pictures() {
    let pics = vec![
        Picture {
            kind: CoverType::Other,
            description: String::new(),
            data: vec![0, 1, 2],
            mime: String::from("image/png"),
        },
        Picture {
            kind: CoverType::CoverFront,
            description: String::from("ok"),
            data: tiny_bmp(),
            mime: String::from("image/bmp"),
        },
    ];
    let f = TagEditor::load_file(&String::from("/m/a.mp3"), AudioFileFormat::Mp3, &vec![], pics)
        .expect("should load");
    assert_eq!(f.images.len(), 1);
    assert_eq!(f.images[0].description, "ok");
}

#[test]
fn bucket_amplitudes_exact_values() {
    let samples: Vec<i16> = vec![1, -3, 2, 8];
    assert_eq!(bucket_amplitudes(&samples, 2), vec![3u16, 8u16]);
    // more buckets than samples: trailing buckets are silent
    assert_eq!(bucket_amplitudes(&samples, 6), vec![1u16, 3u16, 2u16, 8u16, 0u16, 0u16]);
    // the most negative sample has a representable amplitude
    assert_eq!(bucket_amplitudes(&vec![i16::MIN], 1), vec![32768u16]);
}

#[test]
fn cancellation_is_monotonic_and_stops_chunks() {
    let samples: Vec<i16> = vec![5, 6, 7, 8];
    let (mut stream, mut token) = WaveformStream::generate(&samples, 4);
    assert_eq!(stream.step(&token), Some(5));
    token.request();
    token.request();
    assert!(token.requested);
    assert_eq!(stream.step(&token), None);
    assert_eq!(stream.step(&token), None);
    assert!(stream.cancelled);
}

#[test]
fn fresh_token_is_unrequested() {
    let t = CancellationToken::new();
    assert!(!t.requested);
}

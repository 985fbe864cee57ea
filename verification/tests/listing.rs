use autotagger::juno::{JunoDownload, ReleaseEntry, TrackText};
use autotagger::track::Date;

fn entry(track_lines: Vec<TrackText>) -> ReleaseEntry {
    ReleaseEntry {
        artists: vec![String::from("Artist A")],
        title: String::from("EP"),
        url: String::from("/products/artist-a-ep/123456-02/"),
        label: String::from("Label L"),
        info_lines: vec![String::from("01 Jan 21"), String::from("Deep House/Techno")],
        art_src: String::from("https://imagescdn.junodownload.com/150/CS123-MED.jpg"),
        track_texts: track_lines,
    }
}

fn line(text: &str) -> TrackText {
    TrackText { parts: vec![String::from(text)] }
}

#[test]
fn release_with_two_tracks_shares_album_fields() {
    // One listing entry with two tracks: both tracks share the release's
    // album, label and art, and differ in title.
    let juno = JunoDownload::new();
    let e = entry(vec![line("Track One - (3:45) "), line("Track Two - (4:01) ")]);
    let tracks = juno.parse_release(&e).expect("entry should parse");
    assert_eq!(tracks.len(), 2);
    assert_eq!(tracks[0].title, "Track One");
    assert_eq!(tracks[1].title, "Track Two");
    assert_ne!(tracks[0].title, tracks[1].title);
    assert_eq!(tracks[0].album, tracks[1].album);
    assert_eq!(tracks[0].album.as_deref(), Some("EP"));
    assert_eq!(tracks[0].label, tracks[1].label);
    assert_eq!(tracks[0].label.as_deref(), Some("Label L"));
    assert_eq!(tracks[0].art, tracks[1].art);
    assert_eq!(
        tracks[0].art.as_deref(),
        Some("https://imagescdn.junodownload.com/full/CS123-MED-BIG.jpg")
    );
    assert_eq!(tracks[0].artists, vec![String::from("Artist A")]);
    assert_eq!(
        tracks[0].url.as_deref(),
        Some("https://www.junodownload.com/products/artist-a-ep/123456-02/")
    );
    assert_eq!(tracks[0].genres, vec![String::from("Deep House"), String::from("Techno")]);
    assert_eq!(tracks[0].release_date, Some(Date { year: 2021, month: 1, day: 1 }));
}

#[test]
fn artist_title_line_overrides_release_artists() {
    let juno = JunoDownload::new();
    let e = entry(vec![line("Guest X & Guest Y - \"Their Track\" - (6:12) ")]);
    let tracks = juno.parse_release(&e).expect("entry should parse");
    assert_eq!(tracks.len(), 1);
    assert_eq!(tracks[0].title, "Their Track");
    assert_eq!(
        tracks[0].artists,
        vec![String::from("Guest X"), String::from("Guest Y")]
    );
}

#[test]
fn bpm_text_is_parsed() {
    let juno = JunoDownload::new();
    let e = entry(vec![TrackText {
        parts: vec![String::from("Track One - (3:45) "), String::from("128\u{a0}BPM")],
    }]);
    let tracks = juno.parse_release(&e).expect("entry should parse");
    assert_eq!(tracks[0].bpm, Some(128));
}

#[test]
fn bad_date_fails_the_entry() {
    let juno = JunoDownload::new();
    let mut e = entry(vec![line("Track One - (3:45) ")]);
    e.info_lines = vec![String::from("not a date"), String::from("House")];
    assert!(juno.parse_release(&e).is_none());
}

#[test]
fn barcode_line_is_skipped() {
    let juno = JunoDownload::new();
    let mut e = entry(vec![line("Track One - (3:45) ")]);
    e.info_lines = vec![
        String::from("BARCODE 123"),
        String::from("02 Feb 20"),
        String::from("House"),
    ];
    let tracks = juno.parse_release(&e).expect("entry should parse");
    assert_eq!(tracks[0].release_date, Some(Date { year: 2020, month: 2, day: 2 }));
    assert_eq!(tracks[0].genres, vec![String::from("House")]);
}

#[test]
fn search_counts_warnings_only_in_head_region() {
    let juno = JunoDownload::new();
    let good = entry(vec![line("Track One - (3:45) ")]);
    // one unparsable entry inside the head region, one past the cutoff
    let entries = vec![Some(good), None, None];
    let outcome = juno.search(&entries, 2);
    assert_eq!(outcome.tracks.len(), 1);
    assert_eq!(outcome.warnings, 1);
    assert!(outcome
        .tracks
        .iter()
        .all(|t| !t.title.is_empty()));
}

#[test]
fn empty_title_line_fails_the_entry() {
    let juno = JunoDownload::new();
    let e = entry(vec![line("")]);
    assert!(juno.parse_release(&e).is_none());
}

use autotagger::matching::MatchingUtils;
use autotagger::track::{AudioFileInfo, Track, TaggerConfig, MusicPlatform};

fn config(threshold: u32) -> TaggerConfig {
    TaggerConfig {
        path: String::from("/music"),
        threshold,
        concurrency: 4,
        parse_cutoff: 50,
        platforms: vec![MusicPlatform::JunoDownload],
    }
}

fn track(title: &str, artists: &[&str]) -> Track {
    Track {
        platform: MusicPlatform::JunoDownload,
        title: String::from(title),
        version: None,
        artists: artists.iter().map(|a| String::from(*a)).collect(),
        album: None,
        bpm: None,
        genres: vec![],
        styles: vec![],
        key: None,
        label: None,
        publish_date: None,
        publish_year: None,
        release_year: None,
        release_date: None,
        art: None,
        url: None,
    }
}

fn info(title: &str, artists: &[&str]) -> AudioFileInfo {
    AudioFileInfo {
        path: String::from("/music/file.mp3"),
        title: String::from(title),
        artists: artists.iter().map(|a| String::from(*a)).collect(),
    }
}

#[test]
fn clean_title_strips_version_label() {
    assert_eq!(MatchingUtils::clean_title("Track One (Radio Edit)"), "track one");
}

#[test]
fn clean_title_is_idempotent_on_examples() {
    for t in [
        "Track One (Radio Edit)",
        "  SOME  TITLE [Extended Mix] ",
        "plain",
        "",
        "(all bracketed)",
        "A - B (x) [y] C",
    ] {
        let once = MatchingUtils::clean_title(t);
        let twice = MatchingUtils::clean_title(&once);
        assert_eq!(once, twice);
    }
}

#[test]
fn scoring_is_deterministic() {
    let i = info("Track One (Radio Edit)", &["Artist A"]);
    let t = track("Track One", &["Artist A"]);
    let s1 = MatchingUtils::score_track(&i, &t);
    let s2 = MatchingUtils::score_track(&i, &t);
    assert_eq!(s1, s2);
}

#[test]
fn radio_edit_scores_above_threshold() {
    // A local file whose title only differs by a stripped qualifier is a
    // full match for the candidate.
    let i = info("Track One (Radio Edit)", &["Artist A"]);
    let t = track("Track One", &["Artist A"]);
    let cfg = config(800);
    let m = MatchingUtils::match_track(&i, &vec![t], &cfg).expect("should match");
    assert_eq!(m.score, 1000);
    assert_eq!(m.track.title, "Track One");
}

#[test]
fn exact_similarity_value() {
    // dist("abc","abd") = 1 over max length 3: title part (3-1)*1000/3 = 666;
    // identical artist lists give 1000; the combined score is their mean.
    let i = info("abc", &["X"]);
    let t = track("abd", &["X"]);
    assert_eq!(MatchingUtils::score_track(&i, &t), (666 + 1000) / 2);
}

#[test]
fn below_threshold_gives_no_match() {
    let i = info("Completely Different", &["Someone Else"]);
    let t = track("Track One", &["Artist A"]);
    let cfg = config(800);
    assert!(MatchingUtils::match_track(&i, &vec![t], &cfg).is_none());
}

#[test]
fn first_of_equal_scores_wins() {
    let i = info("Track One", &["Artist A"]);
    let t1 = track("Track One", &["Artist A"]);
    let t2 = track("Track One", &["Artist A"]);
    let cfg = config(800);
    let m = MatchingUtils::match_track(&i, &vec![t1, t2], &cfg).expect("should match");
    // both candidates score 1000; the tie keeps the first
    assert_eq!(m.score, 1000);
}

#[test]
fn artist_overlap_is_order_independent() {
    let a = vec![String::from("A"), String::from("B")];
    let b = vec![String::from("B"), String::from("A")];
    assert_eq!(MatchingUtils::artist_similarity(&a, &b), 1000);
}

//! The matching/scoring utility: decides which candidate, if any, stands
//! for the same recording as a local file, and with what confidence.
//!
//! Scoring is pure: the score is a function of the file metadata and the
//! candidate alone, so repeated scoring of one pair always agrees.
use vstd::prelude::*;
use crate::text::{clean_spec, similarity_spec, clean_str, clean_chars, chars_of, similarity};
use crate::track::{AudioFileInfo, Track, TaggerConfig, MatchResult, track_like};

verus! {

/// The cleaned views of a list of names.
pub open spec fn cleaned_views(v: Seq<String>) -> Seq<Seq<char>> {
    v.map_values(|s: String| clean_spec(s@))
}

pub open spec fn contains_seq(xs: Seq<Seq<char>>, y: Seq<char>) -> bool {
    exists|i: int| 0 <= i < xs.len() && xs[i] == y
}

/// How many entries of `a` also occur in `b`.
pub open spec fn overlap_count(a: Seq<Seq<char>>, b: Seq<Seq<char>>) -> nat
    decreases a.len(),
{
    if a.len() == 0 {
        0
    } else {
        overlap_count(a.drop_last(), b) + (if contains_seq(b, a.last()) {
            1nat
        } else {
            0nat
        })
    }
}

pub proof fn lemma_overlap_le(a: Seq<Seq<char>>, b: Seq<Seq<char>>)
    ensures
        overlap_count(a, b) <= a.len(),
    decreases a.len(),
{
    if a.len() > 0 {
        lemma_overlap_le(a.drop_last(), b);
    }
}

/// Artist similarity on a 0..=1000 scale: the shared cleaned names over
/// the larger list; order does not matter.
pub open spec fn artist_sim_spec(a: Seq<String>, b: Seq<String>) -> int {
    let ca = cleaned_views(a);
    let cb = cleaned_views(b);
    let m: int = if ca.len() >= cb.len() {
        ca.len() as int
    } else {
        cb.len() as int
    };
    if m == 0 {
        1000
    } else {
        ((overlap_count(ca, cb) * 1000) as int) / m
    }
}

pub proof fn lemma_artist_sim_range(a: Seq<String>, b: Seq<String>)
    ensures
        0 <= artist_sim_spec(a, b) <= 1000,
{
    let ca = cleaned_views(a);
    let cb = cleaned_views(b);
    let m: int = if ca.len() >= cb.len() {
        ca.len() as int
    } else {
        cb.len() as int
    };
    if m > 0 {
        lemma_overlap_le(ca, cb);
        let o = overlap_count(ca, cb) as int;
        assert(0 <= (o * 1000) / m <= 1000) by (nonlinear_arith)
            requires
                m > 0,
                0 <= o <= m,
        ;
    }
}

/// The combined score of a candidate against a local file, 0..=1000:
/// the mean of cleaned-title similarity and artist overlap.
pub open spec fn track_score_spec(info: AudioFileInfo, t: Track) -> int {
    (similarity_spec(clean_spec(info.title@), clean_spec(t.title@)) + artist_sim_spec(
        info.artists@,
        t.artists@,
    )) / 2
}

pub proof fn lemma_score_range(info: AudioFileInfo, t: Track)
    ensures
        0 <= track_score_spec(info, t) <= 1000,
{
    crate::text::lemma_similarity_range(clean_spec(info.title@), clean_spec(t.title@));
    lemma_artist_sim_range(info.artists@, t.artists@);
}

/// Scoring is deterministic: any two scores computed for the same
/// (file, candidate) pair are equal.
pub proof fn lemma_score_deterministic(info: AudioFileInfo, t: Track, s1: int, s2: int)
    requires
        s1 == track_score_spec(info, t),
        s2 == track_score_spec(info, t),
    ensures
        s1 == s2,
{
}

/// The accepted candidate among the first `n`: the first one reaching the
/// highest score at or above the threshold, or nothing.
pub open spec fn best_idx(info: AudioFileInfo, tracks: Seq<Track>, threshold: u32, n: int) -> Option<
    int,
>
    decreases n,
{
    if n <= 0 {
        None
    } else {
        let prev = best_idx(info, tracks, threshold, n - 1);
        let s = track_score_spec(info, tracks[n - 1]);
        match prev {
            None => if s >= threshold {
                Some(n - 1)
            } else {
                None
            },
            Some(i) => if s > track_score_spec(info, tracks[i]) {
                Some(n - 1)
            } else {
                prev
            },
        }
    }
}

/// What `match_track` must return: nothing when no candidate is accepted,
/// else the accepted candidate's score and a field-by-field copy of it.
pub open spec fn match_result_ok(
    info: AudioFileInfo,
    tracks: Seq<Track>,
    threshold: u32,
    r: Option<MatchResult>,
) -> bool {
    match best_idx(info, tracks, threshold, tracks.len() as int) {
        None => r is None,
        Some(i) => match r {
            Some(mr) => mr.score == track_score_spec(info, tracks[i]) && track_like(
                mr.track,
                tracks[i],
            ),
            None => false,
        },
    }
}

pub struct MatchingUtils {}

impl MatchingUtils {
    /// Cleans a title: lower-cases it, strips bracketed qualifiers such as
    /// mix or version labels, and normalises whitespace.
    pub fn clean_title(title: &str) -> (r: String)
        ensures
            r@ == clean_spec(title@),
    {
        clean_str(title)
    }

    /// The score of one candidate against one file, on the 0..=1000 scale.
    pub fn score_track(info: &AudioFileInfo, t: &Track) -> (r: u32)
        ensures
            r == track_score_spec(*info, *t),
            r <= 1000,
    {
        proof {
            lemma_score_range(*info, *t);
        }
        let a = chars_of(info.title.as_str());
        let ca = clean_chars(&a);
        let b = chars_of(t.title.as_str());
        let cb = clean_chars(&b);
        let title_sim = similarity(&ca, &cb);
        let artist_sim = Self::artist_similarity(&info.artists, &t.artists);
        (title_sim + artist_sim) / 2
    }

    fn cleaned_list(v: &Vec<String>) -> (r: Vec<Vec<char>>)
        ensures
            r@.len() == v@.len(),
            forall|i: int| 0 <= i < v@.len() ==> (#[trigger] r@[i])@ == clean_spec(v@[i]@),
    {
        let mut r: Vec<Vec<char>> = Vec::new();
        let mut i: usize = 0;
        while i < v.len()
            invariant
                i <= v@.len(),
                r@.len() == i,
                forall|j: int| 0 <= j < i ==> (#[trigger] r@[j])@ == clean_spec(v@[j]@),
            decreases v@.len() - i,
        {
            let cs = chars_of(v[i].as_str());
            r.push(clean_chars(&cs));
            i = i + 1;
        }
        r
    }

    fn chars_eq(a: &Vec<char>, b: &Vec<char>) -> (r: bool)
        ensures
            r <==> a@ == b@,
    {
        if a.len() != b.len() {
            return false;
        }
        let mut i: usize = 0;
        while i < a.len()
            invariant
                a@.len() == b@.len(),
                i <= a@.len(),
                forall|j: int| 0 <= j < i ==> a@[j] == b@[j],
            decreases a@.len() - i,
        {
            if a[i] != b[i] {
                return false;
            }
            i = i + 1;
        }
        assert(a@ =~= b@);
        true
    }

    fn contains_chars(xs: &Vec<Vec<char>>, y: &Vec<char>) -> (r: bool)
        ensures
            r <==> contains_seq(xs@.map_values(|v: Vec<char>| v@), y@),
    {
        let ghost views = xs@.map_values(|v: Vec<char>| v@);
        let mut i: usize = 0;
        while i < xs.len()
            invariant
                i <= xs@.len(),
                views == xs@.map_values(|v: Vec<char>| v@),
                forall|j: int| 0 <= j < i ==> views[j] != y@,
            decreases xs@.len() - i,
        {
            if Self::chars_eq(&xs[i], y) {
                assert(views[i as int] == y@);
                return true;
            }
            i = i + 1;
        }
        false
    }

    /// Artist overlap of two name lists, on the 0..=1000 scale.
    pub fn artist_similarity(a: &Vec<String>, b: &Vec<String>) -> (r: u32)
        ensures
            r == artist_sim_spec(a@, b@),
            r <= 1000,
    {
        proof {
            lemma_artist_sim_range(a@, b@);
        }
        let ca = Self::cleaned_list(a);
        let cb = Self::cleaned_list(b);
        let ghost sa = cleaned_views(a@);
        let ghost sb = cleaned_views(b@);
        proof {
            assert(ca@.map_values(|v: Vec<char>| v@) =~= sa);
            assert(cb@.map_values(|v: Vec<char>| v@) =~= sb);
        }
        let la = ca.len();
        let lb = cb.len();
        let m: usize = if la >= lb {
            la
        } else {
            lb
        };
        if m == 0 {
            return 1000;
        }
        let mut count: usize = 0;
        let mut i: usize = 0;
        while i < ca.len()
            invariant
                i <= ca@.len(),
                sa == cleaned_views(a@),
                sb == cleaned_views(b@),
                ca@.map_values(|v: Vec<char>| v@) == sa,
                cb@.map_values(|v: Vec<char>| v@) == sb,
                count == overlap_count(sa.take(i as int), sb),
                count <= i,
            decreases ca@.len() - i,
        {
            let shared = Self::contains_chars(&cb, &ca[i]);
            proof {
                assert(sa.take(i + 1).drop_last() =~= sa.take(i as int));
                assert(sa.take(i + 1).last() == sa[i as int]);
                assert(ca@[i as int]@ == sa[i as int]);
            }
            if shared {
                count = count + 1;
            }
            i = i + 1;
        }
        proof {
            assert(sa.take(i as int) =~= sa);
            lemma_overlap_le(sa, sb);
        }
        let num: u128 = (count as u128) * 1000;
        let q: u128 = num / (m as u128);
        assert(q == artist_sim_spec(a@, b@));
        q as u32
    }

    /// Picks the accepted candidate: the first one reaching the highest
    /// score at or above the configured threshold. Returns nothing when no
    /// candidate clears the threshold.
    pub fn match_track(info: &AudioFileInfo, tracks: &Vec<Track>, config: &TaggerConfig) -> (r:
        Option<MatchResult>)
        ensures
            match_result_ok(*info, tracks@, config.threshold, r),
    {
        let mut best: Option<(u32, usize)> = None;
        let mut idx: usize = 0;
        while idx < tracks.len()
            invariant
                idx <= tracks@.len(),
                match best {
                    None => best_idx(*info, tracks@, config.threshold, idx as int) is None,
                    Some((s, j)) => {
                        &&& j < idx
                        &&& best_idx(*info, tracks@, config.threshold, idx as int) == Some(j as int)
                        &&& s == track_score_spec(*info, tracks@[j as int])
                    },
                },
            decreases tracks@.len() - idx,
        {
            let s = Self::score_track(info, &tracks[idx]);
            match best {
                None => {
                    if s >= config.threshold {
                        best = Some((s, idx));
                    }
                },
                Some((bs, _bj)) => {
                    if s > bs {
                        best = Some((s, idx));
                    }
                },
            }
            idx = idx + 1;
        }
        match best {
            None => None,
            Some((s, j)) => Some(
                MatchResult { score: s, track: tracks[j].duplicate() },
            ),
        }
    }
}

} // verus!

//! The JunoDownload matcher: turns the raw text fields pulled out of one
//! catalog result listing into candidate tracks, and picks the best
//! candidate for a local file.
//!
//! Fetching the listing page and selecting its elements is the scraping
//! collaborator's job; this module receives each listing entry as plain
//! text fields and owns everything from there on.
use vstd::prelude::*;
use vstd::string::*;
use chrono::Datelike;
use crate::track::{
    MusicPlatform, Date, Track, AudioFileInfo, TaggerConfig, MatchResult, str_views, opt_str_view,
    valid_track, clone_str_vec, clone_string,
};
use crate::matching::{MatchingUtils, match_result_ok};
use crate::text::{chars_of, string_of, clean_spec, clean_str};

verus! {

// ---------------------------------------------------------------------------
// Generic sequence grammar helpers.
// ---------------------------------------------------------------------------

/// The least index at which `sep` occurs in `s`.
pub open spec fn first_occ(s: Seq<char>, sep: Seq<char>) -> Option<int>
    decreases s.len(),
{
    if s.len() < sep.len() {
        None
    } else if s.take(sep.len() as int) == sep {
        Some(0)
    } else if s.len() == 0 {
        None
    } else {
        match first_occ(s.drop_first(), sep) {
            None => None,
            Some(k) => Some(k + 1),
        }
    }
}

/// `s` split at every occurrence of `sep`, in order, separators dropped.
pub open spec fn split_sep(s: Seq<char>, sep: Seq<char>) -> Seq<Seq<char>>
    decreases s.len(),
{
    if sep.len() == 0 {
        seq![s]
    } else {
        match first_occ(s, sep) {
            None => seq![s],
            Some(k) => if 0 <= k && k + sep.len() <= s.len() {
                seq![s.take(k)] + split_sep(s.skip(k + sep.len()), sep)
            } else {
                seq![s]
            },
        }
    }
}

/// `s` with every occurrence of `pat` removed.
pub open spec fn remove_all(s: Seq<char>, pat: Seq<char>) -> Seq<char>
    decreases s.len(),
{
    if pat.len() == 0 {
        s
    } else {
        match first_occ(s, pat) {
            None => s,
            Some(k) => if 0 <= k && k + pat.len() <= s.len() {
                s.take(k) + remove_all(s.skip(k + pat.len()), pat)
            } else {
                s
            },
        }
    }
}

pub proof fn lemma_split_nonempty(s: Seq<char>, sep: Seq<char>)
    ensures
        split_sep(s, sep).len() >= 1,
{
}

pub(crate) fn window_eq(v: &Vec<char>, i: usize, sep: &Vec<char>) -> (r: bool)
    requires
        i + sep@.len() <= v@.len(),
    ensures
        r <==> v@.subrange(i as int, i + sep@.len()) == sep@,
{
    let n = v.len();
    let mut j: usize = 0;
    while j < sep.len()
        invariant
            n == v@.len(),
            i + sep@.len() <= v@.len(),
            j <= sep@.len(),
            forall|k: int| 0 <= k < j ==> v@[i + k] == sep@[k],
        decreases sep@.len() - j,
    {
        assert(i + j < v@.len());
        if v[i + j] != sep[j] {
            return false;
        }
        j = j + 1;
    }
    assert(v@.subrange(i as int, i + sep@.len()) =~= sep@);
    true
}

pub(crate) fn first_occ_at(v: &Vec<char>, sep: &Vec<char>, i: usize) -> (r: Option<usize>)
    requires
        i <= v@.len(),
    ensures
        match r {
            None => first_occ(v@.skip(i as int), sep@) is None,
            Some(j) => i <= j && j + sep@.len() <= v@.len() && first_occ(v@.skip(i as int), sep@)
                == Some(j - i),
        },
    decreases v@.len() - i,
{
    let ghost s = v@.skip(i as int);
    if v.len() - i < sep.len() {
        return None;
    }
    assert(s.take(sep@.len() as int) =~= v@.subrange(i as int, i + sep@.len()));
    if window_eq(v, i, sep) {
        Some(i)
    } else {
        if i == v.len() {
            proof {
                assert(sep@.len() == 0);
                assert(v@.subrange(i as int, i + sep@.len()) =~= sep@);
                assert(false);
            }
            None
        } else {
            assert(s.drop_first() =~= v@.skip(i + 1));
            match first_occ_at(v, sep, i + 1) {
                None => None,
                Some(j) => Some(j),
            }
        }
    }
}

pub(crate) fn copy_range(v: &Vec<char>, a: usize, b: usize) -> (r: Vec<char>)
    requires
        a <= b <= v@.len(),
    ensures
        r@ == v@.subrange(a as int, b as int),
{
    let mut r: Vec<char> = Vec::new();
    let mut i: usize = a;
    while i < b
        invariant
            a <= i <= b <= v@.len(),
            r@ == v@.subrange(a as int, i as int),
        decreases b - i,
    {
        r.push(v[i]);
        i = i + 1;
        assert(r@ =~= v@.subrange(a as int, i as int));
    }
    r
}

pub(crate) fn split_at_sep(v: &Vec<char>, sep: &Vec<char>, i: usize) -> (r: Vec<Vec<char>>)
    requires
        i <= v@.len(),
        sep@.len() > 0,
    ensures
        r@.map_values(|x: Vec<char>| x@) == split_sep(v@.skip(i as int), sep@),
    decreases v@.len() - i,
{
    let ghost s = v@.skip(i as int);
    let n = v.len();
    match first_occ_at(v, sep, i) {
        None => {
            let seg = copy_range(v, i, v.len());
            assert(seg@ =~= s);
            let mut r: Vec<Vec<char>> = Vec::new();
            r.push(seg);
            assert(r@.map_values(|x: Vec<char>| x@) =~= seq![s]);
            r
        },
        Some(j) => {
            assert(j + sep@.len() <= v@.len());
            let seg = copy_range(v, i, j);
            assert(seg@ =~= s.take(j - i));
            let mut rest = split_at_sep(v, sep, j + sep.len());
            proof {
                assert(v@.skip((j + sep@.len()) as int) =~= s.skip(j - i + sep@.len()));
            }
            rest.insert(0, seg);
            assert(rest@.map_values(|x: Vec<char>| x@) =~= seq![s.take(j - i)] + split_sep(
                s.skip(j - i + sep@.len()),
                sep@,
            ));
            rest
        },
    }
}

pub(crate) fn remove_all_at(v: &Vec<char>, pat: &Vec<char>, i: usize) -> (r: Vec<char>)
    requires
        i <= v@.len(),
        pat@.len() > 0,
    ensures
        r@ == remove_all(v@.skip(i as int), pat@),
    decreases v@.len() - i,
{
    let ghost s = v@.skip(i as int);
    let n = v.len();
    match first_occ_at(v, pat, i) {
        None => {
            let r = copy_range(v, i, v.len());
            assert(r@ =~= s);
            r
        },
        Some(j) => {
            assert(j + pat@.len() <= v@.len());
            let mut r = copy_range(v, i, j);
            assert(r@ =~= s.take(j - i));
            let rest = remove_all_at(v, pat, j + pat.len());
            proof {
                assert(v@.skip((j + pat@.len()) as int) =~= s.skip(j - i + pat@.len()));
            }
            let mut k: usize = 0;
            let ghost head = r@;
            while k < rest.len()
                invariant
                    k <= rest@.len(),
                    r@ == head + rest@.subrange(0, k as int),
                decreases rest@.len() - k,
            {
                r.push(rest[k]);
                k = k + 1;
                assert(r@ =~= head + rest@.subrange(0, k as int));
            }
            assert(rest@.subrange(0, rest@.len() as int) =~= rest@);
            r
        },
    }
}

// ---------------------------------------------------------------------------
// Digits.
// ---------------------------------------------------------------------------

pub open spec fn is_digit(c: char) -> bool {
    48 <= c as u32 <= 57
}

pub open spec fn digit_val(c: char) -> int {
    c as u32 - 48
}

pub open spec fn all_digits(s: Seq<char>) -> bool {
    forall|i: int| 0 <= i < s.len() ==> is_digit(#[trigger] s[i])
}

pub open spec fn digits_val(s: Seq<char>) -> int
    decreases s.len(),
{
    if s.len() == 0 {
        0
    } else {
        digits_val(s.drop_last()) * 10 + digit_val(s[s.len() - 1])
    }
}

pub open spec fn pow10(n: nat) -> int
    decreases n,
{
    if n == 0 {
        1
    } else {
        10 * pow10((n - 1) as nat)
    }
}

proof fn lemma_digits_val_bound(s: Seq<char>)
    requires
        all_digits(s),
    ensures
        0 <= digits_val(s) < pow10(s.len()),
    decreases s.len(),
{
    if s.len() > 0 {
        assert(all_digits(s.drop_last()));
        lemma_digits_val_bound(s.drop_last());
    }
}

/// A decimal number of one to eighteen digits; everything else is rejected.
pub open spec fn parse_num_spec(s: Seq<char>) -> Option<i64> {
    if 1 <= s.len() <= 18 && all_digits(s) {
        Some(digits_val(s) as i64)
    } else {
        None
    }
}

fn parse_num(v: &Vec<char>) -> (r: Option<i64>)
    ensures
        r == parse_num_spec(v@),
{
    if v.len() < 1 || v.len() > 18 {
        return None;
    }
    proof {
        reveal_with_fuel(pow10, 20);
    }
    let mut acc: u64 = 0;
    let mut i: usize = 0;
    while i < v.len()
        invariant
            i <= v@.len() <= 18,
            all_digits(v@.subrange(0, i as int)),
            acc == digits_val(v@.subrange(0, i as int)),
            acc < 1000000000000000000,
        decreases v@.len() - i,
    {
        let u: u32 = v[i] as u32;
        if u < 48 || u > 57 {
            assert(!is_digit(v@[i as int]));
            return None;
        }
        proof {
            assert(v@.subrange(0, i + 1).drop_last() =~= v@.subrange(0, i as int));
            assert(all_digits(v@.subrange(0, i + 1)));
            lemma_digits_val_bound(v@.subrange(0, i + 1));
            lemma_pow10_mono((i + 1) as nat, 18);
            reveal_with_fuel(pow10, 20);
            assert(pow10(18) == 1000000000000000000);
        }
        acc = acc * 10 + ((u - 48) as u64);
        i = i + 1;
    }
    assert(v@.subrange(0, i as int) =~= v@);
    Some(acc as i64)
}

proof fn lemma_pow10_mono(a: nat, b: nat)
    requires
        a <= b,
    ensures
        pow10(a) <= pow10(b),
        pow10(a) >= 1,
    decreases b,
{
    if a < b {
        lemma_pow10_mono(a, (b - 1) as nat);
    } else if a == b && a > 0 {
        lemma_pow10_mono((a - 1) as nat, (b - 1) as nat);
    }
}

// ---------------------------------------------------------------------------
// The track-line grammar.
// ---------------------------------------------------------------------------

pub open spec fn sep_td() -> Seq<char> {
    seq![' ', '-', ' ', '"']
}

pub open spec fn sep_amp() -> Seq<char> {
    seq![' ', '&', ' ']
}

pub open spec fn replace_nbsp(s: Seq<char>) -> Seq<char> {
    s.map_values(
        |c: char|
            if c == '\u{a0}' {
                ' '
            } else {
                c
            },
    )
}

pub open spec fn dur_body(u: Seq<char>) -> bool {
    &&& u.len() >= 9
    &&& u[0] == ' '
    &&& u[1] == '-'
    &&& u[2] == ' '
    &&& u[3] == '('
    &&& u[u.len() - 1] == ')'
    &&& u[u.len() - 4] == ':'
    &&& is_digit(u[u.len() - 3])
    &&& is_digit(u[u.len() - 2])
    &&& forall|i: int| 4 <= i < u.len() - 4 ==> is_digit(#[trigger] u[i])
}

/// Whether `t` is a trailing duration such as " - (3:45)", with an
/// optional final space.
pub open spec fn is_duration_tail(t: Seq<char>) -> bool {
    dur_body(
        if t.len() > 0 && t[t.len() - 1] == ' ' {
            t.drop_last()
        } else {
            t
        },
    )
}

/// The least position where a trailing duration begins.
pub open spec fn dur_start(s: Seq<char>) -> Option<int>
    decreases s.len(),
{
    if is_duration_tail(s) {
        Some(0)
    } else if s.len() == 0 {
        None
    } else {
        match dur_start(s.drop_first()) {
            None => None,
            Some(k) => Some(k + 1),
        }
    }
}

pub open spec fn strip_duration(s: Seq<char>) -> Seq<char> {
    match dur_start(s) {
        None => s,
        Some(k) => s.take(k),
    }
}

/// A raw track line after substituting non-breaking spaces and stripping
/// the trailing duration.
pub open spec fn line_clean(s: Seq<char>) -> Seq<char> {
    strip_duration(replace_nbsp(s))
}

/// The title part of a track line: either the whole cleaned line, or the
/// quoted segment after the first ` - "` separator, quotes removed.
pub open spec fn line_title(s: Seq<char>) -> Seq<char> {
    let c = line_clean(s);
    match first_occ(c, sep_td()) {
        None => c,
        Some(k) => {
            let rest = c.skip(k + 4);
            let seg = match first_occ(rest, sep_td()) {
                None => rest,
                Some(j) => rest.take(j),
            };
            remove_all(seg, seq!['"'])
        },
    }
}

/// The artists named on the track line itself, split at " & "; nothing
/// when the line holds a title only.
pub open spec fn line_artists(s: Seq<char>) -> Option<Seq<Seq<char>>> {
    let c = line_clean(s);
    match first_occ(c, sep_td()) {
        None => None,
        Some(k) => Some(split_sep(c.take(k), sep_amp())),
    }
}

fn is_dur_tail_at(v: &Vec<char>, k: usize) -> (r: bool)
    requires
        k <= v@.len(),
    ensures
        r == is_duration_tail(v@.skip(k as int)),
{
    let ghost t = v@.skip(k as int);
    let n = v.len();
    let has_sp = n - k > 0 && v[n - 1] == ' ';
    let e: usize = if has_sp {
        n - 1
    } else {
        n
    };
    let ghost u = if t.len() > 0 && t[t.len() - 1] == ' ' {
        t.drop_last()
    } else {
        t
    };
    proof {
        assert(u =~= v@.subrange(k as int, e as int));
        assert(is_duration_tail(t) == dur_body(u));
    }
    // u = v[k..e]; u[i] == v[k+i]; u.len() == e - k
    if e - k < 9 {
        return false;
    }
    if !(v[k] == ' ' && v[k + 1] == '-' && v[k + 2] == ' ' && v[k + 3] == '(') {
        return false;
    }
    if v[e - 1] != ')' || v[e - 4] != ':' {
        return false;
    }
    let d1: u32 = v[e - 3] as u32;
    let d2: u32 = v[e - 2] as u32;
    if d1 < 48 || d1 > 57 || d2 < 48 || d2 > 57 {
        return false;
    }
    let mut i: usize = k + 4;
    while i < e - 4
        invariant
            k + 4 <= i || i == k + 4,
            k + 9 <= e <= v@.len(),
            k + 4 <= i <= e - 4,
            u == v@.subrange(k as int, e as int),
            t == v@.skip(k as int),
            is_duration_tail(t) == dur_body(u),
            forall|j: int| 4 <= j < i - k ==> is_digit(#[trigger] u[j]),
        decreases e - 4 - i,
    {
        let d: u32 = v[i] as u32;
        if d < 48 || d > 57 {
            proof {
                assert(u[i - k] == v@[i as int]);
                assert(!is_digit(u[i - k]));
                assert(4 <= i - k < u.len() - 4);
                assert(!dur_body(u));
            }
            return false;
        }
        i = i + 1;
    }
    true
}

fn dur_start_at(v: &Vec<char>, i: usize) -> (r: Option<usize>)
    requires
        i <= v@.len(),
    ensures
        match r {
            None => dur_start(v@.skip(i as int)) is None,
            Some(j) => i <= j <= v@.len() && dur_start(v@.skip(i as int)) == Some(j - i),
        },
    decreases v@.len() - i,
{
    if is_dur_tail_at(v, i) {
        Some(i)
    } else if i == v.len() {
        None
    } else {
        assert(v@.skip(i as int).drop_first() =~= v@.skip(i + 1));
        match dur_start_at(v, i + 1) {
            None => None,
            Some(j) => Some(j),
        }
    }
}

fn replace_nbsp_exec(v: &Vec<char>) -> (r: Vec<char>)
    ensures
        r@ == replace_nbsp(v@),
{
    let mut r: Vec<char> = Vec::new();
    let mut i: usize = 0;
    while i < v.len()
        invariant
            i <= v@.len(),
            r@.len() == i,
            forall|j: int|
                0 <= j < i ==> r@[j] == (if v@[j] == '\u{a0}' {
                    ' '
                } else {
                    #[trigger] v@[j]
                }),
        decreases v@.len() - i,
    {
        let c = v[i];
        if c == '\u{a0}' {
            r.push(' ');
        } else {
            r.push(c);
        }
        i = i + 1;
    }
    assert(r@ =~= replace_nbsp(v@));
    r
}

fn line_clean_exec(s: &String) -> (r: Vec<char>)
    ensures
        r@ == line_clean(s@),
{
    let raw = chars_of(s.as_str());
    let subst = replace_nbsp_exec(&raw);
    match dur_start_at(&subst, 0) {
        None => {
            assert(subst@.skip(0) =~= subst@);
            subst
        },
        Some(k) => {
            assert(subst@.skip(0) =~= subst@);
            copy_range(&subst, 0, k)
        },
    }
}

// ---------------------------------------------------------------------------
// Listing entries.
// ---------------------------------------------------------------------------

/// The text fields of one entry of a tracklist element: the track line
/// itself, and the BPM text when the listing shows one.
pub struct TrackText {
    pub parts: Vec<String>,
}

/// The raw text fields pulled out of one release element of a result
/// listing.
pub struct ReleaseEntry {
    pub artists: Vec<String>,
    pub title: String,
    pub url: String,
    pub label: String,
    pub info_lines: Vec<String>,
    pub art_src: String,
    pub track_texts: Vec<TrackText>,
}

/// What chrono's date parsing returns for a listing date, as plain values.
pub uninterp spec fn juno_date_of(s: Seq<char>) -> Option<(int, int, int)>;

/// Relies on chrono's NaiveDate::parse_from_str with the fixed format
/// "%d %b %y", and on the Datelike year/month/day accessors; a parsed
/// NaiveDate always holds a valid calendar date.
#[verifier::external_body]
fn parse_date_dmy(s: &str) -> (r: Option<Date>)
    ensures
        match r {
            Some(d) => juno_date_of(s@) == Some((d.year as int, d.month as int, d.day as int)) && 1
                <= d.month <= 12 && 1 <= d.day <= 31,
            None => juno_date_of(s@) is None,
        },
{
    match chrono::NaiveDate::parse_from_str(s, "%d %b %y") {
        Ok(d) => Some(
            Date { year: d.year(), month: d.month(), day: d.day() },
        ),
        Err(_) => None,
    }
}

/// The info lines with the leading barcode line dropped when present.
pub open spec fn eff_info(v: Seq<String>) -> Seq<String> {
    if v.len() == 3 {
        v.drop_first()
    } else {
        v
    }
}

pub open spec fn info_ok(e: ReleaseEntry) -> bool {
    &&& eff_info(e.info_lines@).len() >= 2
    &&& juno_date_of(eff_info(e.info_lines@)[0]@) is Some
}

pub open spec fn line_bpm(t: TrackText) -> Option<i64> {
    if t.parts@.len() == 2 {
        parse_num_spec(remove_all(t.parts@[1]@, seq!['\u{a0}', 'B', 'P', 'M']))
    } else {
        None
    }
}

pub open spec fn line_ok(t: TrackText) -> bool {
    &&& t.parts@.len() >= 1
    &&& line_title(t.parts@[0]@).len() > 0
    &&& (t.parts@.len() == 2 ==> line_bpm(t) is Some)
}

/// Whether a whole release entry parses: its info region holds a date and
/// a genre line, and every track line parses.
pub open spec fn release_ok(e: ReleaseEntry) -> bool {
    &&& info_ok(e)
    &&& forall|i: int| 0 <= i < e.track_texts@.len() ==> line_ok(#[trigger] e.track_texts@[i])
}

pub open spec fn art_url_spec(src: Seq<char>) -> Seq<char> {
    "https://imagescdn.junodownload.com/full/"@ + remove_all(
        split_sep(src, seq!['/']).last(),
        seq!['.', 'j', 'p', 'g'],
    ) + "-BIG.jpg"@
}

pub open spec fn full_url_spec(u: Seq<char>) -> Seq<char> {
    "https://www.junodownload.com"@ + u
}

pub open spec fn genres_spec(e: ReleaseEntry) -> Seq<Seq<char>> {
    split_sep(eff_info(e.info_lines@)[1]@, seq!['/'])
}

/// Field-by-field statement of what track `i` of a parsed release holds.
pub open spec fn track_matches_line(t: Track, e: ReleaseEntry, i: int) -> bool {
    let line = e.track_texts@[i];
    &&& t.platform == MusicPlatform::JunoDownload
    &&& t.title@ == line_title(line.parts@[0]@)
    &&& valid_track(t)
    &&& str_views(t.artists@) == (match line_artists(line.parts@[0]@) {
        None => str_views(e.artists@),
        Some(a) => a,
    })
    &&& opt_str_view(t.album) == Some(e.title@)
    &&& t.bpm == line_bpm(line)
    &&& str_views(t.genres@) == genres_spec(e)
    &&& t.styles@.len() == 0
    &&& t.version is None
    &&& t.key is None
    &&& opt_str_view(t.label) == Some(e.label@)
    &&& (match t.release_date {
        Some(d) => juno_date_of(eff_info(e.info_lines@)[0]@) == Some(
            (d.year as int, d.month as int, d.day as int),
        ),
        None => false,
    })
    &&& t.publish_date is None
    &&& t.publish_year is None
    &&& t.release_year is None
    &&& opt_str_view(t.art) == Some(art_url_spec(e.art_src@))
    &&& opt_str_view(t.url) == Some(full_url_spec(e.url@))
}

// ---------------------------------------------------------------------------
// The matcher.
// ---------------------------------------------------------------------------

pub struct JunoDownload {}

impl JunoDownload {
    pub fn new() -> (r: JunoDownload) {
        JunoDownload {}
    }

    fn sep_td_vec() -> (r: Vec<char>)
        ensures
            r@ == sep_td(),
    {
        let mut v: Vec<char> = Vec::new();
        v.push(' ');
        v.push('-');
        v.push(' ');
        v.push('"');
        assert(v@ =~= sep_td());
        v
    }

    fn parse_title_artists(line: &String) -> (r: (Vec<char>, Option<Vec<Vec<char>>>))
        ensures
            r.0@ == line_title(line@),
            match r.1 {
                None => line_artists(line@) is None,
                Some(a) => line_artists(line@) == Some(a@.map_values(|x: Vec<char>| x@)),
            },
    {
        let c = line_clean_exec(line);
        let clen = c.len();
        let sep = Self::sep_td_vec();
        assert(c@.skip(0) =~= c@);
        match first_occ_at(&c, &sep, 0) {
            None => {
                (c, None)
            },
            Some(k) => {
                assert(k + sep@.len() <= c@.len());
                assert(sep@.len() == 4);
                let head = copy_range(&c, 0, k);
                assert(head@ =~= c@.take(k as int));
                let mut amp: Vec<char> = Vec::new();
                amp.push(' ');
                amp.push('&');
                amp.push(' ');
                assert(amp@ =~= sep_amp());
                assert(head@.skip(0) =~= head@);
                let artists = split_at_sep(&head, &amp, 0);
                let ghost rest = c@.skip(k + 4);
                let seg: Vec<char> = match first_occ_at(&c, &sep, k + 4) {
                    None => {
                        let s = copy_range(&c, k + 4, c.len());
                        assert(s@ =~= rest);
                        s
                    },
                    Some(j) => {
                        let s = copy_range(&c, k + 4, j);
                        assert(s@ =~= rest.take(j - (k + 4)));
                        s
                    },
                };
                let mut quote: Vec<char> = Vec::new();
                quote.push('"');
                assert(quote@ =~= seq!['"']);
                assert(seg@.skip(0) =~= seg@);
                let title = remove_all_at(&seg, &quote, 0);
                (title, Some(artists))
            },
        }
    }

    /// Parses one raw listing entry into its tracks. Fails exactly when
    /// the entry's info region or one of its track lines does not parse;
    /// every produced track is valid, tagged with this platform, and
    /// shares the release's album, label, genres, date and art.
    pub fn parse_release(&self, e: &ReleaseEntry) -> (r: Option<Vec<Track>>)
        ensures
            match r {
                None => !release_ok(*e),
                Some(ts) => {
                    &&& release_ok(*e)
                    &&& ts@.len() == e.track_texts@.len()
                    &&& forall|i: int|
                        0 <= i < ts@.len() ==> track_matches_line(#[trigger] ts@[i], *e, i)
                },
            },
    {
        // Info region: date line and genre line, after dropping a barcode line.
        let info_start: usize = if e.info_lines.len() == 3 {
            1
        } else {
            0
        };
        if e.info_lines.len() < info_start + 2 {
            assert(eff_info(e.info_lines@).len() < 2);
            return None;
        }
        assert(eff_info(e.info_lines@)[0] == e.info_lines@[info_start as int]);
        assert(eff_info(e.info_lines@)[1] == e.info_lines@[info_start + 1]);
        let date = match parse_date_dmy(e.info_lines[info_start].as_str()) {
            Some(d) => d,
            None => {
                return None;
            },
        };
        let genre_chars = chars_of(e.info_lines[info_start + 1].as_str());
        let mut slash: Vec<char> = Vec::new();
        slash.push('/');
        assert(slash@ =~= seq!['/']);
        assert(genre_chars@.skip(0) =~= genre_chars@);
        let genre_parts = split_at_sep(&genre_chars, &slash, 0);
        let mut genres: Vec<String> = Vec::new();
        let mut gi: usize = 0;
        while gi < genre_parts.len()
            invariant
                gi <= genre_parts@.len(),
                genres@.len() == gi,
                forall|j: int| 0 <= j < gi ==> (#[trigger] genres@[j])@ == genre_parts@[j]@,
            decreases genre_parts@.len() - gi,
        {
            genres.push(string_of(&genre_parts[gi]));
            gi = gi + 1;
        }
        proof {
            assert(str_views(genres@) =~= genre_parts@.map_values(|x: Vec<char>| x@));
        }
        // Art URL: the file name of the small art, at full resolution.
        let art = self.build_art_url(&e.art_src);
        let track_url = self.build_track_url(&e.url);
        // Track lines.
        let mut out: Vec<Track> = Vec::new();
        let mut ti: usize = 0;
        while ti < e.track_texts.len()
            invariant
                ti <= e.track_texts@.len(),
                out@.len() == ti,
                art@ == art_url_spec(e.art_src@),
                track_url@ == full_url_spec(e.url@),
                str_views(genres@) == genres_spec(*e),
                juno_date_of(eff_info(e.info_lines@)[0]@) == Some(
                    (date.year as int, date.month as int, date.day as int),
                ),
                forall|j: int| 0 <= j < ti ==> line_ok(#[trigger] e.track_texts@[j]),
                forall|j: int| 0 <= j < ti ==> track_matches_line(#[trigger] out@[j], *e, j),
            decreases e.track_texts@.len() - ti,
        {
            let text = &e.track_texts[ti];
            if text.parts.len() == 0 {
                return None;
            }
            let (title_chars, artists_opt) = Self::parse_title_artists(&text.parts[0]);
            if title_chars.len() == 0 {
                return None;
            }
            let bpm: Option<i64> = if text.parts.len() == 2 {
                let bpm_chars = chars_of(text.parts[1].as_str());
                let mut pat: Vec<char> = Vec::new();
                pat.push('\u{a0}');
                pat.push('B');
                pat.push('P');
                pat.push('M');
                assert(pat@ =~= seq!['\u{a0}', 'B', 'P', 'M']);
                assert(bpm_chars@.skip(0) =~= bpm_chars@);
                let digits = remove_all_at(&bpm_chars, &pat, 0);
                match parse_num(&digits) {
                    Some(n) => Some(n),
                    None => {
                        return None;
                    },
                }
            } else {
                None
            };
            let track_artists: Vec<String> = match artists_opt {
                None => clone_str_vec(&e.artists),
                Some(parts) => {
                    let mut names: Vec<String> = Vec::new();
                    let mut ai: usize = 0;
                    while ai < parts.len()
                        invariant
                            ai <= parts@.len(),
                            names@.len() == ai,
                            forall|j: int| 0 <= j < ai ==> (#[trigger] names@[j])@ == parts@[j]@,
                        decreases parts@.len() - ai,
                    {
                        names.push(string_of(&parts[ai]));
                        ai = ai + 1;
                    }
                    proof {
                        assert(str_views(names@) =~= parts@.map_values(|x: Vec<char>| x@));
                    }
                    names
                },
            };
            out.push(
                Track {
                    platform: MusicPlatform::JunoDownload,
                    title: string_of(&title_chars),
                    version: None,
                    artists: track_artists,
                    album: Some(clone_string(&e.title)),
                    bpm,
                    genres: clone_str_vec(&genres),
                    styles: Vec::new(),
                    key: None,
                    label: Some(clone_string(&e.label)),
                    publish_date: None,
                    publish_year: None,
                    release_year: None,
                    release_date: Some(date),
                    art: Some(clone_string(&art)),
                    url: Some(clone_string(&track_url)),
                },
            );
            ti = ti + 1;
        }
        Some(out)
    }

    fn build_art_url(&self, src: &String) -> (r: String)
        ensures
            r@ == art_url_spec(src@),
    {
        let chars = chars_of(src.as_str());
        let mut slash: Vec<char> = Vec::new();
        slash.push('/');
        assert(slash@ =~= seq!['/']);
        assert(chars@.skip(0) =~= chars@);
        let parts = split_at_sep(&chars, &slash, 0);
        proof {
            lemma_split_nonempty(src@, seq!['/']);
        }
        let seg = &parts[parts.len() - 1];
        assert(seg@ == split_sep(src@, seq!['/']).last());
        let mut jpg: Vec<char> = Vec::new();
        jpg.push('.');
        jpg.push('j');
        jpg.push('p');
        jpg.push('g');
        assert(jpg@ =~= seq!['.', 'j', 'p', 'g']);
        assert(seg@.skip(0) =~= seg@);
        let name = remove_all_at(seg, &jpg, 0);
        let mut r = String::from_str("https://imagescdn.junodownload.com/full/");
        r.append(string_of(&name).as_str());
        r.append("-BIG.jpg");
        r
    }

    fn build_track_url(&self, u: &String) -> (r: String)
        ensures
            r@ == full_url_spec(u@),
    {
        let mut r = String::from_str("https://www.junodownload.com");
        r.append(u.as_str());
        r
    }

    /// Builds the search query from the file's primary artist and its
    /// cleaned title.
    pub fn build_query(info: &AudioFileInfo) -> (r: String)
        requires
            info.artists@.len() > 0,
        ensures
            r@ == info.artists@[0]@ + seq![' '] + clean_spec(info.title@),
    {
        let mut r = clone_string(&info.artists[0]);
        r.append(" ");
        let cleaned = clean_str(info.title.as_str());
        r.append(cleaned.as_str());
        proof {
            reveal_strlit(" ");
            assert(" "@ =~= seq![' ']);
        }
        r
    }
}

/// How many entries fail to parse within the head region of the page:
/// each is unexpected and counts as a warning.
pub open spec fn warn_count(entries: Seq<Option<ReleaseEntry>>, cutoff: int, n: int) -> int
    decreases n,
{
    if n <= 0 {
        0
    } else {
        warn_count(entries, cutoff, n - 1) + (if (match entries[n - 1] {
            None => true,
            Some(e) => !release_ok(e),
        }) && n - 1 < cutoff {
            1int
        } else {
            0int
        })
    }
}

/// The number of tracks a parsed listing yields: one per track line of
/// every entry that parses.
pub open spec fn total_tracks(entries: Seq<Option<ReleaseEntry>>, n: int) -> int
    decreases n,
{
    if n <= 0 {
        0
    } else {
        total_tracks(entries, n - 1) + (match entries[n - 1] {
            None => 0,
            Some(e) => if release_ok(e) {
                e.track_texts@.len() as int
            } else {
                0
            },
        })
    }
}

proof fn lemma_total_nonneg(entries: Seq<Option<ReleaseEntry>>, n: int)
    ensures
        total_tracks(entries, n) >= 0,
    decreases n,
{
    if n > 0 {
        lemma_total_nonneg(entries, n - 1);
    }
}

proof fn lemma_total_mono(entries: Seq<Option<ReleaseEntry>>, m: int, n: int)
    requires
        m <= n,
    ensures
        total_tracks(entries, m) <= total_tracks(entries, n),
    decreases n - m,
{
    if m < n {
        lemma_total_mono(entries, m, n - 1);
    }
}

/// The tracks of a parsed listing, entry by entry: the tracks of entry
/// `j` stand contiguously at offset `total_tracks(entries, j)`, each
/// matching its own track line.
pub open spec fn tracks_match_entries(
    tracks: Seq<Track>,
    entries: Seq<Option<ReleaseEntry>>,
    n: int,
) -> bool
    decreases n,
{
    if n <= 0 {
        true
    } else {
        tracks_match_entries(tracks, entries, n - 1) && (match entries[n - 1] {
            Some(e) => release_ok(e) ==> (forall|k: int|
                #![trigger e.track_texts@[k]]
                0 <= k < e.track_texts@.len() ==> track_matches_line(
                    tracks[total_tracks(entries, n - 1) + k],
                    e,
                    k,
                )),
            None => true,
        })
    }
}

proof fn lemma_tme_extend(
    t1: Seq<Track>,
    t2: Seq<Track>,
    entries: Seq<Option<ReleaseEntry>>,
    n: int,
)
    requires
        tracks_match_entries(t1, entries, n),
        total_tracks(entries, n) <= t1.len(),
        t1.len() <= t2.len(),
        forall|i: int| 0 <= i < t1.len() ==> t2[i] == t1[i],
    ensures
        tracks_match_entries(t2, entries, n),
    decreases n,
{
    if n > 0 {
        lemma_total_mono(entries, n - 1, n);
        lemma_tme_extend(t1, t2, entries, n - 1);
        match entries[n - 1] {
            Some(e) => {
                if release_ok(e) {
                    lemma_total_nonneg(entries, n - 1);
                    assert forall|k: int|
                        #![trigger e.track_texts@[k]]
                        0 <= k < e.track_texts@.len() implies track_matches_line(
                        t2[total_tracks(entries, n - 1) + k],
                        e,
                        k,
                    ) by {
                        assert(track_matches_line(t1[total_tracks(entries, n - 1) + k], e, k));
                        assert(total_tracks(entries, n - 1) + k < total_tracks(entries, n));
                        assert(t2[total_tracks(entries, n - 1) + k] == t1[total_tracks(
                            entries,
                            n - 1,
                        ) + k]);
                    }
                }
            },
            None => {},
        }
    }
}

/// What one search over an already-fetched listing produced.
pub struct SearchOutcome {
    pub tracks: Vec<Track>,
    pub warnings: usize,
}

impl JunoDownload {
    /// Walks the listing entries in order, collecting the tracks of every
    /// entry that parses; an entry that fails inside the head region
    /// (before `cutoff`) counts as a warning, later failures are expected
    /// page furniture. Every returned track is valid and carries this
    /// platform's tag.
    pub fn search(&self, entries: &Vec<Option<ReleaseEntry>>, cutoff: usize) -> (r: SearchOutcome)
        ensures
            r.warnings == warn_count(entries@, cutoff as int, entries@.len() as int),
            r.tracks@.len() == total_tracks(entries@, entries@.len() as int),
            tracks_match_entries(r.tracks@, entries@, entries@.len() as int),
            forall|i: int|
                0 <= i < r.tracks@.len() ==> valid_track(#[trigger] r.tracks@[i])
                    && r.tracks@[i].platform == MusicPlatform::JunoDownload,
    {
        let mut tracks: Vec<Track> = Vec::new();
        let mut warnings: usize = 0;
        let mut i: usize = 0;
        while i < entries.len()
            invariant
                i <= entries@.len(),
                warnings == warn_count(entries@, cutoff as int, i as int),
                warnings <= i,
                tracks@.len() == total_tracks(entries@, i as int),
                tracks_match_entries(tracks@, entries@, i as int),
                forall|j: int|
                    0 <= j < tracks@.len() ==> valid_track(#[trigger] tracks@[j])
                        && tracks@[j].platform == MusicPlatform::JunoDownload,
            decreases entries@.len() - i,
        {
            let ghost pre_tracks = tracks@;
            let parsed: Option<Vec<Track>> = match &entries[i] {
                None => None,
                Some(e) => self.parse_release(e),
            };
            match parsed {
                Some(ts) => {
                    let ghost old_tracks = tracks@;
                    let ghost all_ts = ts@;
                    let mut ts = ts;
                    while ts.len() > 0
                        invariant
                            ts@.len() <= all_ts.len(),
                            ts@ == all_ts.skip(all_ts.len() - ts@.len()),
                            tracks@ == old_tracks + all_ts.take(all_ts.len() - ts@.len()),
                            forall|j: int|
                                0 <= j < all_ts.len() ==> valid_track(#[trigger] all_ts[j])
                                    && all_ts[j].platform == MusicPlatform::JunoDownload,
                            forall|j: int|
                                0 <= j < old_tracks.len() ==> valid_track(
                                    #[trigger] old_tracks[j],
                                ) && old_tracks[j].platform == MusicPlatform::JunoDownload,
                        decreases ts@.len(),
                    {
                        let ghost done = all_ts.len() - ts@.len();
                        let t = ts.remove(0);
                        assert(t == all_ts[done]);
                        tracks.push(t);
                        assert(ts@ =~= all_ts.skip(all_ts.len() - ts@.len()));
                        assert(tracks@ =~= old_tracks + all_ts.take(done + 1));
                    }
                    assert(all_ts.take(all_ts.len() as int) =~= all_ts);
                    proof {
                        lemma_tme_extend(pre_tracks, tracks@, entries@, i as int);
                        let e = entries@[i as int]->0;
                        assert forall|k: int|
                            #![trigger e.track_texts@[k]]
                            0 <= k < e.track_texts@.len() implies track_matches_line(
                            tracks@[total_tracks(entries@, i as int) + k],
                            e,
                            k,
                        ) by {
                            assert(track_matches_line(all_ts[k], e, k));
                            assert(tracks@[pre_tracks.len() + k] == all_ts[k]);
                        }
                    }
                },
                None => {
                    if i < cutoff {
                        warnings = warnings + 1;
                    }
                },
            }
            i = i + 1;
        }
        SearchOutcome { tracks, warnings }
    }

    /// Delegates selection among already-fetched candidates to the
    /// matching utility: the first candidate reaching the highest score at
    /// or above the configured threshold, or nothing.
    pub fn match_track(
        &self,
        info: &AudioFileInfo,
        candidates: &Vec<Track>,
        config: &TaggerConfig,
    ) -> (r: Option<MatchResult>)
        ensures
            match_result_ok(*info, candidates@, config.threshold, r),
    {
        MatchingUtils::match_track(info, candidates, config)
    }
}

} // verus!

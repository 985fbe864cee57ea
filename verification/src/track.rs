//! Data model: catalog candidates, local-file metadata, run configuration.
use vstd::prelude::*;

verus! {

/// The catalog a candidate came from. A candidate always carries its
/// platform tag; adding a catalog means adding a variant here.
#[derive(Clone, Copy, PartialEq, Eq, Debug, Structural)]
pub enum MusicPlatform {
    JunoDownload,
}

/// A calendar date as plain values; the catalog-side date parsing hands
/// its result over in this form.
#[derive(Clone, Copy, PartialEq, Eq, Debug, Structural)]
pub struct Date {
    pub year: i32,
    pub month: u32,
    pub day: u32,
}

/// One catalog entry candidate, immutable once constructed.
pub struct Track {
    pub platform: MusicPlatform,
    pub title: String,
    pub version: Option<String>,
    pub artists: Vec<String>,
    pub album: Option<String>,
    pub bpm: Option<i64>,
    pub genres: Vec<String>,
    pub styles: Vec<String>,
    pub key: Option<String>,
    pub label: Option<String>,
    pub publish_date: Option<Date>,
    pub publish_year: Option<i64>,
    pub release_year: Option<i64>,
    pub release_date: Option<Date>,
    pub art: Option<String>,
    pub url: Option<String>,
}

/// Metadata of a local audio file, read-only input to matching.
pub struct AudioFileInfo {
    pub path: String,
    pub title: String,
    pub artists: Vec<String>,
}

/// Run-scoped configuration. `threshold` is the acceptance threshold on the
/// 0..=1000 similarity scale; `parse_cutoff` is the head region of a result
/// page within which an entry that fails to parse counts as unexpected.
pub struct TaggerConfig {
    pub path: String,
    pub threshold: u32,
    pub concurrency: u32,
    pub parse_cutoff: usize,
    pub platforms: Vec<MusicPlatform>,
}

impl TaggerConfig {
    pub open spec fn wf(&self) -> bool {
        self.threshold <= 1000 && self.concurrency >= 1
    }
}

/// An accepted pairing of a score and the candidate that earned it.
pub struct MatchResult {
    pub score: u32,
    pub track: Track,
}

pub open spec fn opt_str_view(o: Option<String>) -> Option<Seq<char>> {
    match o {
        Some(s) => Some(s@),
        None => None,
    }
}

pub open spec fn str_views(v: Seq<String>) -> Seq<Seq<char>> {
    v.map_values(|s: String| s@)
}

/// A candidate is valid when its title is non-empty; the platform tag is
/// always present by construction.
pub open spec fn valid_track(t: Track) -> bool {
    t.title@.len() > 0
}

/// Field-by-field equality of two candidates, over the views of the
/// string fields.
pub open spec fn track_like(a: Track, b: Track) -> bool {
    &&& a.platform == b.platform
    &&& a.title@ == b.title@
    &&& opt_str_view(a.version) == opt_str_view(b.version)
    &&& str_views(a.artists@) == str_views(b.artists@)
    &&& opt_str_view(a.album) == opt_str_view(b.album)
    &&& a.bpm == b.bpm
    &&& str_views(a.genres@) == str_views(b.genres@)
    &&& str_views(a.styles@) == str_views(b.styles@)
    &&& opt_str_view(a.key) == opt_str_view(b.key)
    &&& opt_str_view(a.label) == opt_str_view(b.label)
    &&& a.publish_date == b.publish_date
    &&& a.publish_year == b.publish_year
    &&& a.release_year == b.release_year
    &&& a.release_date == b.release_date
    &&& opt_str_view(a.art) == opt_str_view(b.art)
    &&& opt_str_view(a.url) == opt_str_view(b.url)
}

pub fn clone_string(s: &String) -> (r: String)
    ensures
        r@ == s@,
{
    s.clone()
}

pub fn clone_opt_string(o: &Option<String>) -> (r: Option<String>)
    ensures
        opt_str_view(r) == opt_str_view(*o),
{
    match o {
        Some(s) => Some(s.clone()),
        None => None,
    }
}

pub fn clone_str_vec(v: &Vec<String>) -> (r: Vec<String>)
    ensures
        str_views(r@) == str_views(v@),
        r@.len() == v@.len(),
        forall|i: int| 0 <= i < v@.len() ==> (#[trigger] r@[i])@ == v@[i]@,
{
    let mut r: Vec<String> = Vec::new();
    let mut i: usize = 0;
    while i < v.len()
        invariant
            i <= v@.len(),
            r@.len() == i,
            forall|j: int| 0 <= j < i ==> (#[trigger] r@[j])@ == v@[j]@,
        decreases v@.len() - i,
    {
        r.push(v[i].clone());
        i = i + 1;
    }
    assert(str_views(r@) =~= str_views(v@));
    r
}

impl Track {
    /// A copy of this candidate, equal field by field.
    pub fn duplicate(&self) -> (r: Track)
        ensures
            track_like(r, *self),
    {
        Track {
            platform: self.platform,
            title: self.title.clone(),
            version: clone_opt_string(&self.version),
            artists: clone_str_vec(&self.artists),
            album: clone_opt_string(&self.album),
            bpm: self.bpm,
            genres: clone_str_vec(&self.genres),
            styles: clone_str_vec(&self.styles),
            key: clone_opt_string(&self.key),
            label: clone_opt_string(&self.label),
            publish_date: self.publish_date,
            publish_year: self.publish_year,
            release_year: self.release_year,
            release_date: self.release_date,
            art: clone_opt_string(&self.art),
            url: clone_opt_string(&self.url),
        }
    }
}

} // verus!

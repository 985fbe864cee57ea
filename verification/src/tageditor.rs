//! The tag editor core: deciding which enumerated paths are supported
//! audio files, and assembling the editable view of one file's tags and
//! embedded art. Reading directories and tag containers is collaborators'
//! work; encoding art for display is done here through the encoding and
//! image crates.
use vstd::prelude::*;
use vstd::string::*;
use base64::Engine;
use image::GenericImageView;
use crate::text::{lower_seq, lower_chars, chars_of, string_of};
use crate::juno::{split_sep, split_at_sep};
use crate::track::{clone_string, str_views};

verus! {

/// The tag container formats the editor handles.
#[derive(Clone, Copy, PartialEq, Eq, Debug, Structural)]
pub enum AudioFileFormat {
    Flac,
    Mp3,
    Aiff,
}

/// The role of one embedded picture.
#[derive(Clone, Copy, PartialEq, Eq, Debug, Structural)]
pub enum CoverType {
    CoverFront,
    CoverBack,
    Media,
    Other,
}

/// One embedded picture as the tag container hands it over.
pub struct Picture {
    pub kind: CoverType,
    pub description: String,
    pub data: Vec<u8>,
    pub mime: String,
}

/// One directory entry as the enumeration hands it over.
pub struct RawEntry {
    pub path: String,
    pub dir: bool,
}

#[derive(Clone, Debug)]
pub struct FolderEntry {
    pub path: String,
    pub filename: String,
    pub dir: bool,
}

pub struct TagEditorImage {
    pub mime: String,
    pub data: String,
    pub kind: CoverType,
    pub description: String,
    pub width: u32,
    pub height: u32,
}

pub struct TagEditorFile {
    pub tags: Vec<(String, String)>,
    pub filename: String,
    pub format: AudioFileFormat,
    pub path: String,
    pub images: Vec<TagEditorImage>,
}

#[derive(Clone, Copy, PartialEq, Eq, Debug, Structural)]
pub enum EditorError {
    InvalidFilename,
    UndecodableArt,
}

// ---------------------------------------------------------------------------
// Path eligibility.
// ---------------------------------------------------------------------------

/// The file name of a path: what follows the last separator.
pub open spec fn file_name_spec(p: Seq<char>) -> Seq<char> {
    split_sep(p, seq!['/']).last()
}

/// The extension of a file name: what follows the last dot, if any.
pub open spec fn ext_spec(name: Seq<char>) -> Option<Seq<char>> {
    let parts = split_sep(name, seq!['.']);
    if parts.len() >= 2 {
        Some(parts.last())
    } else {
        None
    }
}

pub open spec fn is_supported_ext(e: Seq<char>) -> bool {
    let l = lower_seq(e);
    ||| l == seq!['f', 'l', 'a', 'c']
    ||| l == seq!['m', 'p', '3']
    ||| l == seq!['a', 'i', 'f']
    ||| l == seq!['a', 'i', 'f', 'f']
}

/// Whether a path belongs in the editor's listing: directories always,
/// files only with a supported extension; hidden names never.
pub open spec fn eligible_spec(p: Seq<char>, dir: bool) -> bool {
    &&& (dir || (match ext_spec(file_name_spec(p)) {
        Some(e) => is_supported_ext(e),
        None => false,
    }))
    &&& file_name_spec(p).len() > 0
    &&& file_name_spec(p)[0] != '.'
}

fn seq_eq_chars(a: &Vec<char>, b: &Vec<char>) -> (r: bool)
    ensures
        r <==> a@ == b@,
{
    if a.len() != b.len() {
        return false;
    }
    let mut i: usize = 0;
    while i < a.len()
        invariant
            a@.len() == b@.len(),
            i <= a@.len(),
            forall|j: int| 0 <= j < i ==> a@[j] == b@[j],
        decreases a@.len() - i,
    {
        if a[i] != b[i] {
            return false;
        }
        i = i + 1;
    }
    assert(a@ =~= b@);
    true
}

fn push_all(v: &mut Vec<char>, cs: &[char])
    ensures
        final (v)@ == old(v)@ + cs@,
{
    let ghost head = v@;
    let mut i: usize = 0;
    while i < cs.len()
        invariant
            i <= cs@.len(),
            v@ == head + cs@.subrange(0, i as int),
        decreases cs@.len() - i,
    {
        v.push(cs[i]);
        i = i + 1;
        assert(v@ =~= head + cs@.subrange(0, i as int));
    }
    assert(cs@.subrange(0, cs@.len() as int) =~= cs@);
}

pub struct TagEditor {}

impl TagEditor {
    /// Decides whether one enumerated path belongs in the listing, and
    /// builds its entry when it does.
    pub fn validate_path(path: &String, dir: bool) -> (r: Option<FolderEntry>)
        ensures
            match r {
                None => !eligible_spec(path@, dir),
                Some(fe) => {
                    &&& eligible_spec(path@, dir)
                    &&& fe.path@ == path@
                    &&& fe.filename@ == file_name_spec(path@)
                    &&& fe.dir == dir
                },
            },
    {
        let cs = chars_of(path.as_str());
        let mut slash: Vec<char> = Vec::new();
        slash.push('/');
        assert(slash@ =~= seq!['/']);
        assert(cs@.skip(0) =~= cs@);
        let parts = split_at_sep(&cs, &slash, 0);
        proof {
            crate::juno::lemma_split_nonempty(path@, seq!['/']);
        }
        let fname = &parts[parts.len() - 1];
        assert(fname@ == file_name_spec(path@));
        if !dir {
            let mut dot: Vec<char> = Vec::new();
            dot.push('.');
            assert(dot@ =~= seq!['.']);
            assert(fname@.skip(0) =~= fname@);
            let name_parts = split_at_sep(fname, &dot, 0);
            proof {
                crate::juno::lemma_split_nonempty(fname@, seq!['.']);
            }
            if name_parts.len() < 2 {
                assert(ext_spec(file_name_spec(path@)) is None);
                return None;
            }
            let ext = &name_parts[name_parts.len() - 1];
            assert(ext_spec(file_name_spec(path@)) == Some(ext@));
            let low = lower_chars(ext);
            let mut flac: Vec<char> = Vec::new();
            push_all(&mut flac, &['f', 'l', 'a', 'c']);
            let mut mp3: Vec<char> = Vec::new();
            push_all(&mut mp3, &['m', 'p', '3']);
            let mut aif: Vec<char> = Vec::new();
            push_all(&mut aif, &['a', 'i', 'f']);
            let mut aiff: Vec<char> = Vec::new();
            push_all(&mut aiff, &['a', 'i', 'f', 'f']);
            proof {
                assert(flac@ =~= seq!['f', 'l', 'a', 'c']);
                assert(mp3@ =~= seq!['m', 'p', '3']);
                assert(aif@ =~= seq!['a', 'i', 'f']);
                assert(aiff@ =~= seq!['a', 'i', 'f', 'f']);
            }
            let ok = seq_eq_chars(&low, &flac) || seq_eq_chars(&low, &mp3) || seq_eq_chars(
                &low,
                &aif,
            ) || seq_eq_chars(&low, &aiff);
            if !ok {
                return None;
            }
        }
        if fname.len() == 0 {
            return None;
        }
        if fname[0] == '.' {
            return None;
        }
        Some(
            FolderEntry {
                path: clone_string(path),
                filename: string_of(fname),
                dir,
            },
        )
    }

    /// Lists a directory's enumerated entries: those that belong in the
    /// listing, in enumeration order.
    pub fn list_dir(entries: &Vec<RawEntry>) -> (r: Vec<FolderEntry>)
        ensures
            fe_views(r@) == kept_entries(entries@, entries@.len() as int, false),
    {
        Self::filter_entries(entries, false)
    }

    /// Lists the supported files beneath a root: every enumerated entry
    /// that belongs in the listing and is not a directory.
    pub fn list_dir_recursive(entries: &Vec<RawEntry>) -> (r: Vec<FolderEntry>)
        ensures
            fe_views(r@) == kept_entries(entries@, entries@.len() as int, true),
    {
        Self::filter_entries(entries, true)
    }

    fn filter_entries(entries: &Vec<RawEntry>, skip_dirs: bool) -> (r: Vec<FolderEntry>)
        ensures
            fe_views(r@) == kept_entries(entries@, entries@.len() as int, skip_dirs),
    {
        let mut out: Vec<FolderEntry> = Vec::new();
        let mut i: usize = 0;
        while i < entries.len()
            invariant
                i <= entries@.len(),
                fe_views(out@) == kept_entries(entries@, i as int, skip_dirs),
            decreases entries@.len() - i,
        {
            let ghost before = fe_views(out@);
            match Self::validate_path(&entries[i].path, entries[i].dir) {
                Some(fe) => {
                    if !(skip_dirs && fe.dir) {
                        out.push(fe);
                        assert(fe_views(out@) =~= before + seq![
                            (
                                entries@[i as int].path@,
                                file_name_spec(entries@[i as int].path@),
                                entries@[i as int].dir,
                            ),
                        ]);
                    }
                },
                None => {},
            }
            i = i + 1;
        }
        out
    }

    /// Assembles the editable view of one file: its name, its tags with
    /// every value list joined by commas and embedded separators turned
    /// into commas, and its decodable embedded pictures.
    pub fn load_file(
        path: &String,
        format: AudioFileFormat,
        raw_tags: &Vec<(String, Vec<String>)>,
        pictures: Vec<Picture>,
    ) -> (r: Result<TagEditorFile, EditorError>)
        ensures
            r is Ok <==> file_name_spec(path@).len() > 0,
            match r {
                Ok(f) => {
                    &&& f.path@ == path@
                    &&& f.filename@ == file_name_spec(path@)
                    &&& f.format == format
                    &&& f.tags@.len() == raw_tags@.len()
                    &&& forall|i: int|
                        0 <= i < raw_tags@.len() ==> (#[trigger] f.tags@[i]).0@ == raw_tags@[i].0@
                            && f.tags@[i].1@ == tag_value_spec(str_views(raw_tags@[i].1@))
                    &&& f.images@.map_values(|im: TagEditorImage| img_view(im)) == kept_arts(
                        pictures@,
                        pictures@.len() as int,
                    )
                },
                Err(e) => e == EditorError::InvalidFilename,
            },
    {
        let cs = chars_of(path.as_str());
        let mut slash: Vec<char> = Vec::new();
        slash.push('/');
        assert(slash@ =~= seq!['/']);
        assert(cs@.skip(0) =~= cs@);
        let parts = split_at_sep(&cs, &slash, 0);
        proof {
            crate::juno::lemma_split_nonempty(path@, seq!['/']);
        }
        let fname = &parts[parts.len() - 1];
        assert(fname@ == file_name_spec(path@));
        if fname.len() == 0 {
            return Err(EditorError::InvalidFilename);
        }
        let mut tags: Vec<(String, String)> = Vec::new();
        let mut i: usize = 0;
        while i < raw_tags.len()
            invariant
                i <= raw_tags@.len(),
                tags@.len() == i,
                forall|j: int|
                    0 <= j < i ==> (#[trigger] tags@[j]).0@ == raw_tags@[j].0@ && tags@[j].1@
                        == tag_value_spec(str_views(raw_tags@[j].1@)),
            decreases raw_tags@.len() - i,
        {
            let joined = join_comma_exec(&raw_tags[i].1);
            let fixed = nul_to_comma_exec(&joined);
            tags.push((clone_string(&raw_tags[i].0), string_of(&fixed)));
            i = i + 1;
        }
        let mut images: Vec<TagEditorImage> = Vec::new();
        let ghost all_pics = pictures@;
        let mut pics = pictures;
        while pics.len() > 0
            invariant
                pics@.len() <= all_pics.len(),
                pics@ == all_pics.skip(all_pics.len() - pics@.len()),
                images@.map_values(|im: TagEditorImage| img_view(im)) == kept_arts(
                    all_pics,
                    all_pics.len() - pics@.len(),
                ),
            decreases pics@.len(),
        {
            let ghost done = all_pics.len() - pics@.len();
            let ghost before = images@.map_values(|im: TagEditorImage| img_view(im));
            let p = pics.remove(0);
            assert(p == all_pics[done]);
            match Self::load_art(p) {
                Ok(img) => {
                    images.push(img);
                    assert(images@.map_values(|im: TagEditorImage| img_view(im)) =~= before
                        + seq![art_view(all_pics[done])]);
                },
                Err(_) => {
                    assert(kept_arts(all_pics, done + 1) =~= before);
                },
            }
            assert(pics@ =~= all_pics.skip(all_pics.len() - pics@.len()));
        }
        Ok(
            TagEditorFile {
                tags,
                filename: string_of(fname),
                format,
                path: clone_string(path),
                images,
            },
        )
    }

    /// Encodes one embedded picture for display: its pixel dimensions and
    /// a base64 data URI. Fails exactly when the bytes do not decode as an
    /// image.
    pub fn load_art(picture: Picture) -> (r: Result<TagEditorImage, EditorError>)
        ensures
            match r {
                Ok(img) => image_dims_of(picture.data@) is Some && img_view(img) == art_view(
                    picture,
                ),
                Err(e) => image_dims_of(picture.data@) is None
                    && e == EditorError::UndecodableArt,
            },
    {
        let dims = match decode_dimensions(&picture.data) {
            Some(d) => d,
            None => {
                return Err(EditorError::UndecodableArt);
            },
        };
        let encoded = b64_encode(&picture.data);
        let mut data = String::from_str("data:");
        data.append(picture.mime.as_str());
        data.append(";base64,");
        data.append(encoded.as_str());
        Ok(
            TagEditorImage {
                mime: picture.mime,
                data,
                kind: picture.kind,
                description: picture.description,
                width: dims.0,
                height: dims.1,
            },
        )
    }
}

// ---------------------------------------------------------------------------
// Listing and art models.
// ---------------------------------------------------------------------------

pub open spec fn fe_views(s: Seq<FolderEntry>) -> Seq<(Seq<char>, Seq<char>, bool)> {
    s.map_values(|fe: FolderEntry| (fe.path@, fe.filename@, fe.dir))
}

/// The entries kept from an enumeration, in order: the eligible ones,
/// without directories when `skip_dirs` holds.
pub open spec fn kept_entries(s: Seq<RawEntry>, n: int, skip_dirs: bool) -> Seq<
    (Seq<char>, Seq<char>, bool),
>
    decreases n,
{
    if n <= 0 {
        Seq::empty()
    } else {
        kept_entries(s, n - 1, skip_dirs) + (if eligible_spec(s[n - 1].path@, s[n - 1].dir) && !(
        skip_dirs && s[n - 1].dir) {
            seq![(s[n - 1].path@, file_name_spec(s[n - 1].path@), s[n - 1].dir)]
        } else {
            Seq::empty()
        })
    }
}

/// One tag value as the editor shows it: the value list joined by commas,
/// embedded separators turned into commas.
pub open spec fn tag_value_spec(values: Seq<Seq<char>>) -> Seq<char> {
    nul_to_comma(join_comma(values))
}

pub open spec fn join_comma(parts: Seq<Seq<char>>) -> Seq<char>
    decreases parts.len(),
{
    if parts.len() == 0 {
        Seq::empty()
    } else if parts.len() == 1 {
        parts[0]
    } else {
        join_comma(parts.drop_last()) + seq![','] + parts.last()
    }
}

pub open spec fn nul_to_comma(s: Seq<char>) -> Seq<char> {
    s.map_values(
        |c: char|
            if c == '\u{0}' {
                ','
            } else {
                c
            },
    )
}

fn join_comma_exec(parts: &Vec<String>) -> (r: Vec<char>)
    ensures
        r@ == join_comma(str_views(parts@)),
{
    let ghost views = str_views(parts@);
    let mut r: Vec<char> = Vec::new();
    let mut i: usize = 0;
    while i < parts.len()
        invariant
            i <= parts@.len(),
            views == str_views(parts@),
            r@ == join_comma(views.take(i as int)),
        decreases parts@.len() - i,
    {
        proof {
            assert(views.take(i + 1).drop_last() =~= views.take(i as int));
            assert(views.take(i + 1).last() == views[i as int]);
        }
        if i > 0 {
            r.push(',');
        }
        let cs = chars_of(parts[i].as_str());
        push_all_vec(&mut r, &cs);
        i = i + 1;
        proof {
            if i == 1 {
                assert(r@ =~= join_comma(views.take(1)));
            } else {
                assert(r@ =~= join_comma(views.take(i - 1)) + seq![','] + views[i - 1]);
            }
        }
    }
    assert(views.take(parts@.len() as int) =~= views);
    r
}

fn push_all_vec(v: &mut Vec<char>, cs: &Vec<char>)
    ensures
        final (v)@ == old(v)@ + cs@,
{
    let ghost head = v@;
    let mut i: usize = 0;
    while i < cs.len()
        invariant
            i <= cs@.len(),
            v@ == head + cs@.subrange(0, i as int),
        decreases cs@.len() - i,
    {
        v.push(cs[i]);
        i = i + 1;
        assert(v@ =~= head + cs@.subrange(0, i as int));
    }
    assert(cs@.subrange(0, cs@.len() as int) =~= cs@);
}

fn nul_to_comma_exec(v: &Vec<char>) -> (r: Vec<char>)
    ensures
        r@ == nul_to_comma(v@),
{
    let mut r: Vec<char> = Vec::new();
    let mut i: usize = 0;
    while i < v.len()
        invariant
            i <= v@.len(),
            r@.len() == i,
            forall|j: int|
                0 <= j < i ==> r@[j] == (if v@[j] == '\u{0}' {
                    ','
                } else {
                    #[trigger] v@[j]
                }),
        decreases v@.len() - i,
    {
        let c = v[i];
        if c == '\u{0}' {
            r.push(',');
        } else {
            r.push(c);
        }
        i = i + 1;
    }
    assert(r@ =~= nul_to_comma(v@));
    r
}

/// The view of one displayed picture.
pub open spec fn img_view(im: TagEditorImage) -> (
    Seq<char>,
    Seq<char>,
    CoverType,
    Seq<char>,
    u32,
    u32,
) {
    (im.mime@, im.data@, im.kind, im.description@, im.width, im.height)
}

/// What one embedded picture must display as, when its bytes decode.
pub open spec fn art_view(p: Picture) -> (Seq<char>, Seq<char>, CoverType, Seq<char>, u32, u32) {
    (
        p.mime@,
        "data:"@ + p.mime@ + ";base64,"@ + base64_of(p.data@),
        p.kind,
        p.description@,
        (match image_dims_of(p.data@) {
            Some(d) => d.0,
            None => 0,
        }),
        (match image_dims_of(p.data@) {
            Some(d) => d.1,
            None => 0,
        }),
    )
}

/// The displayed pictures of a file: those whose bytes decode, in order.
pub open spec fn kept_arts(pics: Seq<Picture>, n: int) -> Seq<
    (Seq<char>, Seq<char>, CoverType, Seq<char>, u32, u32),
>
    decreases n,
{
    if n <= 0 {
        Seq::empty()
    } else {
        kept_arts(pics, n - 1) + (if image_dims_of(pics[n - 1].data@) is Some {
            seq![art_view(pics[n - 1])]
        } else {
            Seq::empty()
        })
    }
}

// ---------------------------------------------------------------------------
// Trusted wrappers around the encoding and image crates.
// ---------------------------------------------------------------------------

/// What the standard base64 encoding of some bytes is.
pub uninterp spec fn base64_of(b: Seq<u8>) -> Seq<char>;

/// Relies on base64's standard-alphabet engine: the encoding depends on
/// the bytes alone, and with padding it holds four characters for every
/// started group of three bytes.
#[verifier::external_body]
fn b64_encode(data: &Vec<u8>) -> (r: String)
    ensures
        r@ == base64_of(data@),
        r@.len() == 4 * ((data@.len() + 2) / 3),
{
    base64::engine::general_purpose::STANDARD.encode(data.as_slice())
}

/// What some bytes decode to as an image, if anything: their pixel
/// dimensions.
pub uninterp spec fn image_dims_of(b: Seq<u8>) -> Option<(u32, u32)>;

/// Relies on image's format-guessing reader, its decoder and
/// GenericImageView::dimensions: what bytes decode to depends on the
/// bytes alone.
#[verifier::external_body]
fn decode_dimensions(data: &Vec<u8>) -> (r: Option<(u32, u32)>)
    ensures
        match r {
            Some(d) => image_dims_of(data@) == Some(d),
            None => image_dims_of(data@) is None,
        },
{
    let reader = match image::ImageReader::new(
        std::io::Cursor::new(data.as_slice()),
    ).with_guessed_format() {
        Ok(rd) => rd,
        Err(_) => {
            return None;
        },
    };
    match reader.decode() {
        Ok(img) => Some(img.dimensions()),
        Err(_) => None,
    }
}

} // verus!

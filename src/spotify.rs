use vstd::prelude::*;

use crate::entries::{entry_type_name, EntryType};
use crate::errors::AppError;
use crate::text::{lines_of, split_lines, text_eq, text_views};

verus! {

/// An image of a streaming-service item: where it is, and its height in
/// pixels where the service gives one.
#[derive(Debug, Clone)]
pub struct Image {
    pub url: String,
    pub height: Option<u32>,
}

/// Whether an image has one of the two heights that the pages are laid out for.
pub open spec fn fits(i: Image) -> bool {
    i.height == Some(320u32) || i.height == Some(300u32)
}

/// The address of the first image that fits, if any does.
pub open spec fn first_fit(s: Seq<Image>) -> Option<String>
    decreases s.len(),
{
    if s.len() == 0 {
        None
    } else if fits(s[0]) {
        Some(s[0].url)
    } else {
        first_fit(s.drop_first())
    }
}

/// Whether an image has one of the two heights that the pages are laid out for.
pub fn with_height(i: &Image) -> (r: bool)
    ensures
        r == fits(*i),
{
    match i.height {
        Some(h) => h == 320 || h == 300,
        None => false,
    }
}

/// The address of the first image that fits.
pub fn find_image(images: &Vec<Image>) -> (r: Result<String, AppError>)
    ensures
        r == match first_fit(images@) {
            Some(u) => Ok(u),
            None => Err(AppError::NoImage),
        },
{
    let mut i: usize = 0;
    assert(images@.skip(0) =~= images@);
    while i < images.len()
        invariant
            i <= images@.len(),
            first_fit(images@) == first_fit(images@.skip(i as int)),
        decreases images@.len() - i,
    {
        assert(images@.skip(i as int)[0] == images@[i as int]);
        if with_height(&images[i]) {
            return Ok(images[i].url.clone());
        }
        assert(images@.skip(i as int).drop_first() =~= images@.skip(i + 1));
        i = i + 1;
    }
    assert(images@.skip(i as int).len() == 0);
    Err(AppError::NoImage)
}

pub open spec fn option_seq(o: Option<String>) -> Seq<String> {
    match o {
        Some(u) => seq![u],
        None => Seq::empty(),
    }
}

/// For each image list in turn, the address of its first image that fits.
pub open spec fn fitting_choices(lists: Seq<Seq<Image>>) -> Seq<String>
    decreases lists.len(),
{
    if lists.len() == 0 {
        Seq::empty()
    } else {
        fitting_choices(lists.drop_last()) + option_seq(first_fit(lists.last()))
    }
}

pub open spec fn image_lists(v: Seq<Vec<Image>>) -> Seq<Seq<Image>> {
    v.map_values(|l: Vec<Image>| l@)
}

/// The images offered for a category: of each artist's images and then of
/// the item's own, the first that fits, where one does.
pub fn image_choices(artist_images: &Vec<Vec<Image>>, own_images: &Vec<Image>) -> (r: Vec<String>)
    ensures
        r@ == fitting_choices(image_lists(artist_images@).push(own_images@)),
{
    let ghost lists = image_lists(artist_images@).push(own_images@);
    let mut urls: Vec<String> = Vec::new();
    let mut i: usize = 0;
    assert(lists.subrange(0, 0) =~= Seq::<Seq<Image>>::empty());
    while i < artist_images.len()
        invariant
            i <= artist_images@.len(),
            lists == image_lists(artist_images@).push(own_images@),
            urls@ == fitting_choices(lists.subrange(0, i as int)),
        decreases artist_images@.len() - i,
    {
        assert(lists.subrange(0, i + 1).drop_last() =~= lists.subrange(0, i as int));
        assert(lists.subrange(0, i + 1).last() == artist_images@[i as int]@);
        let ghost before = urls@;
        if let Ok(u) = find_image(&artist_images[i]) {
            urls.push(u);
        }
        assert(urls@ =~= before + option_seq(first_fit(artist_images@[i as int]@)));
        i = i + 1;
    }
    assert(lists.subrange(0, i + 1).drop_last() =~= lists.subrange(0, i as int));
    assert(lists.subrange(0, i + 1) =~= lists);
    let ghost before = urls@;
    if let Ok(u) = find_image(own_images) {
        urls.push(u);
    }
    assert(urls@ =~= before + option_seq(first_fit(own_images@)));
    urls
}

/// An album or playlist of the streaming service, by its id.
#[derive(Debug, Clone)]
pub struct SpotifyItem {
    pub kind: EntryType,
    pub id: String,
}

pub open spec fn is_ascii_alphanumeric(c: char) -> bool {
    ('0' <= c && c <= '9') || ('a' <= c && c <= 'z') || ('A' <= c && c <= 'Z')
}

/// Whether every character of an id is an ASCII letter or digit.
pub open spec fn is_alphanumeric_id(id: Seq<char>) -> bool {
    forall|i: int| 0 <= i < id.len() ==> is_ascii_alphanumeric(#[trigger] id[i])
}

/// Relies on rspotify's `AlbumId::id_is_valid`, which accepts an id whose
/// characters are all ASCII letters or digits.
#[verifier::external_body]
fn album_id_is_valid(id: &str) -> (r: bool)
    ensures
        r == is_alphanumeric_id(id@),
{
    rspotify::model::AlbumId::id_is_valid(id)
}

/// Relies on rspotify's `PlaylistId::id_is_valid`, which accepts an id whose
/// characters are all ASCII letters or digits.
#[verifier::external_body]
fn playlist_id_is_valid(id: &str) -> (r: bool)
    ensures
        r == is_alphanumeric_id(id@),
{
    rspotify::model::PlaylistId::id_is_valid(id)
}

pub open spec fn segment_views(s: Seq<String>) -> Seq<Seq<char>> {
    s.map_values(|x: String| x@)
}

/// The kind of item and the id that a URL path of exactly two segments names.
pub open spec fn item_of_path(p: Seq<Seq<char>>) -> Option<(EntryType, Seq<char>)> {
    if p.len() == 2 && p[0] == "album"@ {
        Some((EntryType::Album, p[1]))
    } else if p.len() == 2 && p[0] == "playlist"@ {
        Some((EntryType::Playlist, p[1]))
    } else {
        None
    }
}

/// The album or playlist that a URL names, from the segments of its path
/// (`None` for a URL without a path): `album/<id>` or `playlist/<id>`, with
/// an id of ASCII letters and digits.
pub fn spotify_item(segments: &Option<Vec<String>>) -> (r: Result<SpotifyItem, AppError>)
    ensures
        match *segments {
            None => r == Err::<SpotifyItem, AppError>(AppError::NoPath),
            Some(s) => match item_of_path(segment_views(s@)) {
                None => r == Err::<SpotifyItem, AppError>(AppError::UnsupportedUrl),
                Some((kind, id)) => if is_alphanumeric_id(id) {
                    r matches Ok(item) && item.kind == kind && item.id@ == id
                } else {
                    r == Err::<SpotifyItem, AppError>(AppError::RSpotifyIdError)
                },
            },
        },
{
    match segments {
        None => Err(AppError::NoPath),
        Some(s) => {
            if s.len() != 2 {
                return Err(AppError::UnsupportedUrl);
            }
            let ghost v = segment_views(s@);
            assert(v[0] == s@[0]@ && v[1] == s@[1]@);
            let kind = if text_eq(s[0].as_str(), "album") {
                EntryType::Album
            } else if text_eq(s[0].as_str(), "playlist") {
                EntryType::Playlist
            } else {
                return Err(AppError::UnsupportedUrl);
            };
            let valid = match kind {
                EntryType::Album => album_id_is_valid(s[1].as_str()),
                EntryType::Playlist => playlist_id_is_valid(s[1].as_str()),
            };
            if valid {
                Ok(SpotifyItem { kind, id: s[1].clone() })
            } else {
                Err(AppError::RSpotifyIdError)
            }
        },
    }
}

/// What `url::Url::parse` makes of a text: `None` where it is no absolute
/// URL, else the segments of its path, or `None` for a URL without one.
pub uninterp spec fn url_path_of(s: Seq<char>) -> Option<Option<Seq<Seq<char>>>>;

pub open spec fn path_view(p: Option<Vec<String>>) -> Option<Seq<Seq<char>>> {
    match p {
        Some(v) => Some(segment_views(v@)),
        None => None,
    }
}

/// Relies on `url::Url::parse`, whether the text is an absolute URL, and on
/// `Url::path_segments`, the segments of its path.
#[verifier::external_body]
fn parse_url_path(line: &str) -> (r: Option<Option<Vec<String>>>)
    ensures
        match r {
            Some(p) => url_path_of(line@) == Some(path_view(p)),
            None => url_path_of(line@) is None,
        },
{
    url::Url::parse(line).ok().map(|u| u.path_segments().map(|p| p.map(String::from).collect()))
}

/// The paths of the lines that are URLs, in order; the other lines drop out.
pub open spec fn url_paths(lines: Seq<Seq<char>>) -> Seq<Option<Seq<Seq<char>>>>
    decreases lines.len(),
{
    if lines.len() == 0 {
        Seq::empty()
    } else {
        let prev = url_paths(lines.drop_last());
        match url_path_of(lines.last()) {
            Some(p) => prev.push(p),
            None => prev,
        }
    }
}

pub open spec fn path_views(v: Seq<Option<Vec<String>>>) -> Seq<Option<Seq<Seq<char>>>> {
    v.map_values(|p: Option<Vec<String>>| path_view(p))
}

/// The paths of the URLs pasted into a form, one per line; lines that are no
/// URL are passed over.
pub fn pasted_url_paths(text: &str) -> (r: Vec<Option<Vec<String>>>)
    ensures
        path_views(r@) == url_paths(lines_of(text@)),
{
    let lines = split_lines(text);
    let ghost ls = text_views(lines@);
    let mut paths: Vec<Option<Vec<String>>> = Vec::new();
    let mut i: usize = 0;
    assert(ls.subrange(0, 0) =~= Seq::<Seq<char>>::empty());
    assert(path_views(paths@) =~= Seq::<Option<Seq<Seq<char>>>>::empty());
    while i < lines.len()
        invariant
            i <= lines@.len(),
            ls == text_views(lines@),
            path_views(paths@) == url_paths(ls.subrange(0, i as int)),
        decreases lines@.len() - i,
    {
        assert(ls.subrange(0, i + 1).drop_last() =~= ls.subrange(0, i as int));
        assert(ls.subrange(0, i + 1).last() == lines@[i as int]@);
        let ghost before = path_views(paths@);
        if let Some(p) = parse_url_path(lines[i].as_str()) {
            paths.push(p);
            assert(path_views(paths@) =~= before.push(path_view(p)));
        }
        i = i + 1;
    }
    assert(ls.subrange(0, i as int) =~= ls);
    paths
}

/// The item's URI, `spotify:<kind>:<id>`.
pub open spec fn item_uri(kind: EntryType, id: Seq<char>) -> Seq<char> {
    "spotify:"@ + entry_type_name(kind) + ":"@ + id
}

/// The item's web address, `https://open.spotify.com/<kind>/<id>`.
pub open spec fn item_url(kind: EntryType, id: Seq<char>) -> Seq<char> {
    "https://open.spotify.com/"@ + entry_type_name(kind) + "/"@ + id
}

impl SpotifyItem {
    /// The item's URI, as the media player takes it.
    pub fn uri(&self) -> (r: String)
        ensures
            r@ == item_uri(self.kind, self.id@),
    {
        let mut uri = String::from_str("spotify:");
        uri.append(self.kind.as_str());
        uri.append(":");
        uri.append(self.id.as_str());
        uri
    }

    /// The item's web address.
    pub fn url(&self) -> (r: String)
        ensures
            r@ == item_url(self.kind, self.id@),
    {
        let mut url = String::from_str("https://open.spotify.com/");
        url.append(self.kind.as_str());
        url.append("/");
        url.append(self.id.as_str());
        url
    }
}

/// The field of the form that asks which images could stand for a category:
/// the URL of an album or playlist.
#[derive(Debug, Clone)]
pub struct ImageSelectionForm {
    pub spotify_url: String,
}

impl ImageSelectionForm {
    /// The album or playlist whose images to offer. A text that is no URL, or
    /// a URL without a path, is an error; a URL of anything else offers none.
    pub fn item(&self) -> (r: Result<Option<SpotifyItem>, AppError>)
        ensures
            match url_path_of(self.spotify_url@) {
                None => r == Err::<Option<SpotifyItem>, AppError>(AppError::UrlParseError),
                Some(None) => r == Err::<Option<SpotifyItem>, AppError>(AppError::NoPath),
                Some(Some(p)) => match item_of_path(p) {
                    None => r == Ok::<Option<SpotifyItem>, AppError>(None),
                    Some((kind, id)) => if is_alphanumeric_id(id) {
                        r matches Ok(Some(item)) && item.kind == kind && item.id@ == id
                    } else {
                        r == Err::<Option<SpotifyItem>, AppError>(AppError::RSpotifyIdError)
                    },
                },
            },
    {
        match parse_url_path(self.spotify_url.as_str()) {
            None => Err(AppError::UrlParseError),
            Some(path) => match spotify_item(&path) {
                Ok(item) => Ok(Some(item)),
                Err(AppError::UnsupportedUrl) => Ok(None),
                Err(e) => Err(e),
            },
        }
    }
}

} // verus!

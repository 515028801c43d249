use media_catalog::entries::EntryType;
use media_catalog::errors::AppError;
use media_catalog::spotify::{
    find_image, image_choices, pasted_url_paths, spotify_item, with_height, Image,
    ImageSelectionForm, SpotifyItem,
};

fn image(url: &str, height: Option<u32>) -> Image {
    Image { url: url.to_string(), height }
}

fn segments(s: &[&str]) -> Option<Vec<String>> {
    Some(s.iter().map(|x| x.to_string()).collect())
}

#[test]
fn heights_that_fit() {
    assert!(with_height(&image("a", Some(300))));
    assert!(with_height(&image("a", Some(320))));
    assert!(!with_height(&image("a", Some(640))));
    assert!(!with_height(&image("a", None)));
}

#[test]
fn first_fitting_image() {
    let images = vec![image("big", Some(640)), image("mid", Some(300)), image("other", Some(320))];
    assert_eq!(find_image(&images), Ok("mid".to_string()));
}

#[test]
fn no_fitting_image() {
    let images = vec![image("big", Some(640)), image("none", None)];
    assert_eq!(find_image(&images), Err(AppError::NoImage));
    assert_eq!(find_image(&vec![]), Err(AppError::NoImage));
}

#[test]
fn choices_from_artists_then_item() {
    let artists = vec![
        vec![image("x", Some(640)), image("x2", Some(320))],
        vec![image("y", Some(64))],
        vec![],
    ];
    let own = vec![image("z", Some(300))];
    assert_eq!(image_choices(&artists, &own), vec!["x2", "z"]);
    assert_eq!(image_choices(&vec![], &vec![image("q", Some(1))]), Vec::<String>::new());
}

#[test]
fn album_and_playlist_paths() {
    let item = spotify_item(&segments(&["album", "4aawyAB9vmqN3uQ7FjRGTy"])).unwrap();
    assert_eq!(item.kind, EntryType::Album);
    assert_eq!(item.id, "4aawyAB9vmqN3uQ7FjRGTy");
    let item = spotify_item(&segments(&["playlist", "37i9dQZF1DX"])).unwrap();
    assert_eq!(item.kind, EntryType::Playlist);
}

#[test]
fn other_paths_are_refused() {
    assert_eq!(spotify_item(&segments(&["track", "abc"])).unwrap_err(), AppError::UnsupportedUrl);
    assert_eq!(spotify_item(&segments(&["album"])).unwrap_err(), AppError::UnsupportedUrl);
    assert_eq!(
        spotify_item(&segments(&["album", "abc", "x"])).unwrap_err(),
        AppError::UnsupportedUrl
    );
    assert_eq!(spotify_item(&None).unwrap_err(), AppError::NoPath);
}

#[test]
fn ids_with_other_characters_are_refused() {
    assert_eq!(spotify_item(&segments(&["album", "ab-c"])).unwrap_err(), AppError::RSpotifyIdError);
    assert_eq!(spotify_item(&segments(&["playlist", "ab c"])).unwrap_err(), AppError::RSpotifyIdError);
}

#[test]
fn item_uri_and_url() {
    let item = SpotifyItem { kind: EntryType::Album, id: "abc".to_string() };
    assert_eq!(item.uri(), "spotify:album:abc");
    assert_eq!(item.url(), "https://open.spotify.com/album/abc");
    let item = SpotifyItem { kind: EntryType::Playlist, id: "xyz".to_string() };
    assert_eq!(item.uri(), "spotify:playlist:xyz");
}

#[test]
fn pasted_urls_one_per_line() {
    let text = "https://open.spotify.com/album/abc?si=1\nnot a url\r\nhttps://open.spotify.com/playlist/xyz\r\nmailto:me@example.com";
    assert_eq!(
        pasted_url_paths(text),
        vec![segments(&["album", "abc"]), segments(&["playlist", "xyz"]), None]
    );
    assert!(pasted_url_paths("").is_empty());
}

#[test]
fn image_selection_item() {
    let form = |u: &str| ImageSelectionForm { spotify_url: u.to_string() };
    let item = form("https://open.spotify.com/album/abc").item().unwrap().unwrap();
    assert_eq!(item.kind, EntryType::Album);
    assert_eq!(item.id, "abc");
    assert!(form("https://open.spotify.com/track/abc").item().unwrap().is_none());
    assert_eq!(form("no url").item().unwrap_err(), AppError::UrlParseError);
    assert_eq!(form("mailto:me@example.com").item().unwrap_err(), AppError::NoPath);
    assert_eq!(
        form("https://open.spotify.com/playlist/a_b").item().unwrap_err(),
        AppError::RSpotifyIdError
    );
}

use media_catalog::categories::{CategoryEditForm, CategoryType};
use media_catalog::entries::{EntryCreateModel, EntryEditForm, EntryType};
use media_catalog::errors::AppError;
use media_catalog::ids::read_uuid;
use media_catalog::spotify::{Image, SpotifyItem};
use sqlx::types::Uuid;

const ID: &str = "550e8400-e29b-41d4-a716-446655440000";

fn category_form(id: &str, category_type: &str) -> CategoryEditForm {
    CategoryEditForm {
        id: id.to_string(),
        name: "Stories".to_string(),
        image_url: "https://img/s".to_string(),
        category_type: category_type.to_string(),
        visible: true,
    }
}

fn entry_form(id: &str, entry_type: &str, category_id: Option<&str>) -> EntryEditForm {
    EntryEditForm {
        id: id.to_string(),
        name: "Album".to_string(),
        image_url: "https://img/a".to_string(),
        entry_type: entry_type.to_string(),
        spotify_uri: "spotify:album:abc".to_string(),
        spotify_id: "abc".to_string(),
        play_count: 7,
        blob: serde_json::Value::Null,
        category_id: category_id.map(String::from),
        visible: false,
        spotify_url: "https://open.spotify.com/album/abc".to_string(),
    }
}

#[test]
fn category_type_names() {
    assert_eq!(CategoryType::from_str("music"), Ok(CategoryType::Music));
    assert_eq!(CategoryType::from_str("audiobook"), Ok(CategoryType::Audiobook));
    assert_eq!(CategoryType::from_str("Music"), Err(AppError::StrumError));
    assert_eq!(CategoryType::from_str(""), Err(AppError::StrumError));
    assert_eq!(CategoryType::Audiobook.as_str(), "audiobook");
    assert_eq!(CategoryType::Music.as_str(), "music");
}

#[test]
fn entry_type_names() {
    assert_eq!(EntryType::from_str("album"), Ok(EntryType::Album));
    assert_eq!(EntryType::from_str("playlist"), Ok(EntryType::Playlist));
    assert_eq!(EntryType::from_str("track"), Err(AppError::StrumError));
    assert_eq!(EntryType::Playlist.as_str(), "playlist");
    assert_eq!(EntryType::from_str(EntryType::Album.as_str()), Ok(EntryType::Album));
}

#[test]
fn category_form_into_category() {
    let c = category_form(ID, "music").try_into().unwrap();
    assert_eq!(c.id, Uuid::parse_str(ID).unwrap());
    assert_eq!(c.name, "Stories");
    assert_eq!(c.category_type, CategoryType::Music);
    assert!(c.visible);
}

#[test]
fn category_form_errors() {
    assert_eq!(category_form("42", "music").try_into().unwrap_err(), AppError::UuidError);
    assert_eq!(category_form("42", "jazz").try_into().unwrap_err(), AppError::UuidError);
    assert_eq!(category_form(ID, "jazz").try_into().unwrap_err(), AppError::StrumError);
}

#[test]
fn entry_form_into_entry() {
    let e = entry_form(ID, "album", Some(ID)).try_into().unwrap();
    assert_eq!(e.id, Uuid::parse_str(ID).unwrap());
    assert_eq!(e.category_id, Some(Uuid::parse_str(ID).unwrap()));
    assert_eq!(e.entry_type, EntryType::Album);
    assert_eq!(e.play_count, 7);
    assert_eq!(e.spotify_id, "abc");
    let e = entry_form(ID, "playlist", None).try_into().unwrap();
    assert_eq!(e.category_id, None);
    assert_eq!(e.entry_type, EntryType::Playlist);
}

#[test]
fn entry_form_errors() {
    assert_eq!(entry_form(ID, "album", Some("")).try_into().unwrap_err(), AppError::UuidError);
    assert_eq!(entry_form("x", "album", None).try_into().unwrap_err(), AppError::UuidError);
    assert_eq!(entry_form(ID, "song", None).try_into().unwrap_err(), AppError::StrumError);
}

#[test]
fn new_entry_for_item() {
    let item = SpotifyItem { kind: EntryType::Playlist, id: "xyz".to_string() };
    let images = vec![
        Image { url: "https://img/640".to_string(), height: Some(640) },
        Image { url: "https://img/300".to_string(), height: Some(300) },
    ];
    let category = Some(Uuid::parse_str(ID).unwrap());
    let e = EntryCreateModel::for_item(&item, "Mix".to_string(), &images, serde_json::Value::Bool(true), category)
        .unwrap();
    assert_eq!(e.name, "Mix");
    assert_eq!(e.image_url, "https://img/300");
    assert_eq!(e.entry_type, EntryType::Playlist);
    assert_eq!(e.spotify_uri, "spotify:playlist:xyz");
    assert_eq!(e.spotify_url, "https://open.spotify.com/playlist/xyz");
    assert_eq!(e.spotify_id, "xyz");
    assert_eq!(e.play_count, 0);
    assert_eq!(e.blob, serde_json::Value::Bool(true));
    assert!(!e.visible);
    assert_eq!(e.category_id, category);
}

#[test]
fn new_entry_needs_a_fitting_image() {
    let item = SpotifyItem { kind: EntryType::Album, id: "abc".to_string() };
    let images = vec![Image { url: "https://img/64".to_string(), height: Some(64) }];
    let r = EntryCreateModel::for_item(&item, "A".to_string(), &images, serde_json::Value::Null, None);
    assert_eq!(r.unwrap_err(), AppError::NoImage);
}

#[test]
fn status_codes() {
    assert_eq!(AppError::NotFound.status_code(), 404);
    assert_eq!(AppError::InternalError.status_code(), 500);
    assert_eq!(AppError::Sqlx.status_code(), 500);
    assert_eq!(AppError::UuidError.status_code(), 500);
}

#[test]
fn ids_read_as_uuids() {
    assert_eq!(read_uuid(ID), Ok(Uuid::parse_str(ID).unwrap()));
    assert_eq!(read_uuid("550e8400e29b41d4a716446655440000"), Ok(Uuid::parse_str(ID).unwrap()));
    assert_eq!(read_uuid("not-a-uuid"), Err(AppError::UuidError));
    assert_eq!(read_uuid(""), Err(AppError::UuidError));
}

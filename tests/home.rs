use media_catalog::ha::{rooms_from_states, Client, EntityState, Room};

fn state(id: Option<&str>, state: Option<&str>) -> EntityState {
    EntityState { entity_id: id.map(String::from), state: state.map(String::from) }
}

#[test]
fn entity_id_names_the_rooms_player() {
    let client = Client::new("http://ha.local:8123", "secret");
    assert_eq!(client.entity_id(&Room::Playroom), "media_player.playroom");
    assert_eq!(client.entity_id(&Room::Bathroom), "media_player.bathroom");
    assert_eq!(client.entity_id(&Room::Kitchen), "media_player.kitchen");
    assert_eq!(client.entity_id(&Room::LivingRoom), "media_player.living_room");
}

#[test]
fn service_and_states_addresses() {
    let client = Client::new("http://ha.local:8123", "secret");
    assert_eq!(client.url("play_media"), "http://ha.local:8123/api/services/media_player/play_media");
    assert_eq!(client.states_url(), "http://ha.local:8123/api/states");
}

#[test]
fn bearer_authorization() {
    let client = Client::new("http://ha.local", "abc.def");
    assert_eq!(client.authorization(), "Bearer abc.def");
}

#[test]
fn play_body_fields() {
    let client = Client::new("http://ha.local", "t");
    let body = client.play_body(&Room::Kitchen, "spotify:album:xyz");
    let expected: Vec<(String, String)> = vec![
        ("entity_id".into(), "media_player.kitchen".into()),
        ("media_content_id".into(), "spotify:album:xyz".into()),
        ("media_content_type".into(), "playlist".into()),
        ("enqueue".into(), "replace".into()),
    ];
    assert_eq!(body, expected);
}

#[test]
fn rooms_of_live_media_players() {
    let states = vec![
        state(Some("media_player.kitchen"), Some("playing")),
        state(Some("media_player.living_room"), Some("unavailable")),
        state(Some("light.kitchen"), Some("on")),
        state(Some("media_player.media_player.bathroom"), Some("idle")),
        state(Some("media_player.garage"), Some("idle")),
        state(None, Some("idle")),
        state(Some("media_player.living_room"), None),
        state(Some("media_player.living_room"), Some("off")),
    ];
    assert_eq!(
        rooms_from_states(&states),
        vec![Room::Kitchen, Room::Bathroom, Room::Playroom, Room::LivingRoom]
    );
}

#[test]
fn no_states_give_no_rooms() {
    assert!(rooms_from_states(&vec![]).is_empty());
}

#[test]
fn player_prefix_without_dot_stands_for_playroom() {
    let states = vec![state(Some("media_playerkitchen"), Some("idle"))];
    assert_eq!(rooms_from_states(&states), vec![Room::Playroom]);
}

#[test]
fn room_names() {
    assert_eq!(Room::LivingRoom.name(), "LivingRoom");
    assert_eq!(Room::Playroom.name(), "Playroom");
}

use vstd::prelude::*;

use crate::text::{has_prefix, starts_with, text_eq};

verus! {

/// A room with a media player.
#[derive(Debug, Clone, Copy, PartialEq, Eq, Structural)]
pub enum Room {
    Playroom,
    Bathroom,
    Kitchen,
    LivingRoom,
}

/// The part of a room's media player entity id after `media_player.`.
pub open spec fn room_slug(r: Room) -> Seq<char> {
    match r {
        Room::Playroom => "playroom"@,
        Room::Bathroom => "bathroom"@,
        Room::Kitchen => "kitchen"@,
        Room::LivingRoom => "living_room"@,
    }
}

/// The room that an entity id names once its `media_player.` prefixes are
/// gone; a name of no known room stands for the playroom.
pub open spec fn room_named(slug: Seq<char>) -> Room {
    if slug == "kitchen"@ {
        Room::Kitchen
    } else if slug == "living_room"@ {
        Room::LivingRoom
    } else if slug == "bathroom"@ {
        Room::Bathroom
    } else {
        Room::Playroom
    }
}

pub open spec fn room_name(r: Room) -> Seq<char> {
    match r {
        Room::Playroom => "Playroom"@,
        Room::Bathroom => "Bathroom"@,
        Room::Kitchen => "Kitchen"@,
        Room::LivingRoom => "LivingRoom"@,
    }
}

impl Room {
    /// The variant's name, as forms send it and messages show it.
    pub fn name(&self) -> (r: &'static str)
        ensures
            r@ == room_name(*self),
    {
        match self {
            Room::Playroom => "Playroom",
            Room::Bathroom => "Bathroom",
            Room::Kitchen => "Kitchen",
            Room::LivingRoom => "LivingRoom",
        }
    }

    fn slug(&self) -> (r: &'static str)
        ensures
            r@ == room_slug(*self),
    {
        match self {
            Room::Playroom => "playroom",
            Room::Bathroom => "bathroom",
            Room::Kitchen => "kitchen",
            Room::LivingRoom => "living_room",
        }
    }
}

/// The field of the form that plays an entry: the room to play it in.
#[derive(Debug, Clone, Copy)]
pub struct RoomSelectionForm {
    pub room: Room,
}

/// What the home-automation service reports of one entity: its id and its
/// state, each where it is a string.
#[derive(Debug, Clone)]
pub struct EntityState {
    pub entity_id: Option<String>,
    pub state: Option<String>,
}

/// `s` with every leading copy of `p` removed.
pub open spec fn trim_prefixes(s: Seq<char>, p: Seq<char>) -> Seq<char>
    decreases s.len(),
{
    if p.len() > 0 && has_prefix(s, p) {
        trim_prefixes(s.subrange(p.len() as int, s.len() as int), p)
    } else {
        s
    }
}

/// A media player that is not unavailable.
pub open spec fn is_live_player(st: EntityState) -> bool {
    &&& st.entity_id is Some
    &&& has_prefix(st.entity_id->0@, "media_player"@)
    &&& st.state is Some
    &&& st.state->0@ != "unavailable"@
}

pub open spec fn room_of_state(st: EntityState) -> Room {
    room_named(trim_prefixes(st.entity_id->0@, "media_player."@))
}

/// The rooms of the live media players among `states`, in their order.
pub open spec fn rooms_of(states: Seq<EntityState>) -> Seq<Room>
    decreases states.len(),
{
    if states.len() == 0 {
        Seq::empty()
    } else {
        let prev = rooms_of(states.drop_last());
        if is_live_player(states.last()) {
            prev.push(room_of_state(states.last()))
        } else {
            prev
        }
    }
}

fn trim_start_all<'a>(s: &'a str, p: &str) -> (r: &'a str)
    requires
        p@.len() > 0,
    ensures
        r@ == trim_prefixes(s@, p@),
{
    let mut rest = s;
    while starts_with(rest, p)
        invariant
            p@.len() > 0,
            trim_prefixes(s@, p@) == trim_prefixes(rest@, p@),
        decreases rest@.len(),
    {
        rest = rest.substring_char(p.unicode_len(), rest.unicode_len());
    }
    rest
}

fn room_for_slug(slug: &str) -> (r: Room)
    ensures
        r == room_named(slug@),
{
    if text_eq(slug, "kitchen") {
        Room::Kitchen
    } else if text_eq(slug, "living_room") {
        Room::LivingRoom
    } else if text_eq(slug, "bathroom") {
        Room::Bathroom
    } else {
        Room::Playroom
    }
}

fn live_player_room(st: &EntityState) -> (r: Option<Room>)
    ensures
        r == (if is_live_player(*st) {
            Some(room_of_state(*st))
        } else {
            None
        }),
{
    match (&st.entity_id, &st.state) {
        (Some(id), Some(state)) => {
            if starts_with(id.as_str(), "media_player") && !text_eq(state.as_str(), "unavailable") {
                proof {
                    reveal_strlit("media_player.");
                }
                Some(room_for_slug(trim_start_all(id.as_str(), "media_player.")))
            } else {
                None
            }
        },
        _ => None,
    }
}

/// The rooms of the live media players among the reported entity states: an
/// entity counts when its id begins with `media_player` and its state is not
/// `unavailable`, and its room is read from the id without its
/// `media_player.` prefixes.
pub fn rooms_from_states(states: &Vec<EntityState>) -> (r: Vec<Room>)
    ensures
        r@ == rooms_of(states@),
{
    let mut rooms: Vec<Room> = Vec::new();
    let mut i: usize = 0;
    assert(states@.subrange(0, 0) =~= Seq::<EntityState>::empty());
    while i < states.len()
        invariant
            i <= states@.len(),
            rooms@ == rooms_of(states@.subrange(0, i as int)),
        decreases states@.len() - i,
    {
        assert(states@.subrange(0, i + 1).drop_last() =~= states@.subrange(0, i as int));
        if let Some(room) = live_player_room(&states[i]) {
            rooms.push(room);
        }
        i = i + 1;
    }
    assert(states@.subrange(0, states@.len() as int) =~= states@);
    rooms
}

/// A client of the home-automation service at `host`, which it calls with
/// `token`.
#[derive(Debug, Clone)]
pub struct Client {
    host: String,
    token: String,
}

pub open spec fn entity_of(r: Room) -> Seq<char> {
    "media_player."@ + room_slug(r)
}

/// The body of a request that plays `content` in room `r`, replacing what
/// was queued.
pub open spec fn play_body_of(r: Room, content: Seq<char>) -> Seq<(Seq<char>, Seq<char>)> {
    seq![
        ("entity_id"@, entity_of(r)),
        ("media_content_id"@, content),
        ("media_content_type"@, "playlist"@),
        ("enqueue"@, "replace"@),
    ]
}

pub open spec fn pair_views(v: Seq<(String, String)>) -> Seq<(Seq<char>, Seq<char>)> {
    v.map_values(|p: (String, String)| (p.0@, p.1@))
}

impl Client {
    pub closed spec fn host_view(&self) -> Seq<char> {
        self.host@
    }

    pub closed spec fn token_view(&self) -> Seq<char> {
        self.token@
    }

    pub fn new(host: &str, token: &str) -> (c: Client)
        ensures
            c.host_view() == host@,
            c.token_view() == token@,
    {
        Client { host: host.to_owned(), token: token.to_owned() }
    }

    /// The id of the media player entity in `room`.
    pub fn entity_id(&self, room: &Room) -> (r: String)
        ensures
            r@ == entity_of(*room),
    {
        let mut id = String::from_str("media_player.");
        id.append(room.slug());
        id
    }

    /// The address of a media player service.
    pub fn url(&self, service: &str) -> (r: String)
        ensures
            r@ == self.host_view() + "/api/services/media_player/"@ + service@,
    {
        let mut url = self.host.clone();
        url.append("/api/services/media_player/");
        url.append(service);
        url
    }

    /// The address that lists the states of all entities.
    pub fn states_url(&self) -> (r: String)
        ensures
            r@ == self.host_view() + "/api/states"@,
    {
        let mut url = self.host.clone();
        url.append("/api/states");
        url
    }

    /// The value of the `Authorization` header of each request.
    pub fn authorization(&self) -> (r: String)
        ensures
            r@ == "Bearer "@ + self.token_view(),
    {
        let mut value = String::from_str("Bearer ");
        value.append(self.token.as_str());
        value
    }

    /// The fields of the JSON body that plays `spotify_id` in `room`.
    pub fn play_body(&self, room: &Room, spotify_id: &str) -> (r: Vec<(String, String)>)
        ensures
            pair_views(r@) == play_body_of(*room, spotify_id@),
    {
        let mut body: Vec<(String, String)> = Vec::new();
        body.push((String::from_str("entity_id"), self.entity_id(room)));
        body.push((String::from_str("media_content_id"), String::from_str(spotify_id)));
        body.push((String::from_str("media_content_type"), String::from_str("playlist")));
        body.push((String::from_str("enqueue"), String::from_str("replace")));
        assert(pair_views(body@) =~= play_body_of(*room, spotify_id@));
        body
    }
}

} // verus!

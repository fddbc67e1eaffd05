//! The requests a client sends to the server.
//!
//! A request is a 13-byte tag, followed, for the requests that add an epic or a story, by the
//! UTF-8 bytes of a name and a description. The first byte of the tag names the request by one
//! of its bits; the rest holds ids, byte lengths and a status byte, each id and length as a
//! little-endian `u32`.

use vstd::prelude::*;
use vstd::utf8::*;
use crate::models::{byte_len, status_of_byte, DbError, Status};
use crate::text::{concat, str_byte_len, string_from_utf8, utf8_bytes};
use crate::utils::{le_bytes, le_u32_of, lemma_le_bytes_roundtrip, parse_4_bytes, put_le_u32, slice_to_vec, zeros};

verus! {

broadcast use vstd::utf8::encode_utf8_decode_utf8, vstd::utf8::encode_utf8_valid_utf8;

/// A request from the client with id `peer_id`, as the server's broker receives it.
#[derive(Debug)]
pub enum Event {
    /// A client connected.
    NewClient { peer_id: u128 },
    /// A request to add an epic.
    AddEpic { peer_id: u128, epic_name: String, epic_description: String },
    /// A request to delete an epic.
    DeleteEpic { peer_id: u128, epic_id: u32 },
    /// A request for an epic's data.
    GetEpic { peer_id: u128, epic_id: u32 },
    /// A request to update an epic's status.
    UpdateEpicStatus { peer_id: u128, epic_id: u32, status: Status },
    /// A request for a story's data.
    GetStory { peer_id: u128, epic_id: u32, story_id: u32 },
    /// A request to add a story to an epic.
    AddStory { peer_id: u128, epic_id: u32, story_name: String, story_description: String },
    /// A request to delete a story from an epic.
    DeleteStory { peer_id: u128, epic_id: u32, story_id: u32 },
    /// A request to update a story's status.
    UpdateStoryStatus { peer_id: u128, epic_id: u32, story_id: u32, status: Status },
    /// A request that could not be parsed, to be answered as such.
    UnparseableEvent { peer_id: u128 },
}

/// What an event holds, its names and descriptions as characters.
pub enum EventView {
    NewClient { peer_id: u128 },
    AddEpic { peer_id: u128, epic_name: Seq<char>, epic_description: Seq<char> },
    DeleteEpic { peer_id: u128, epic_id: u32 },
    GetEpic { peer_id: u128, epic_id: u32 },
    UpdateEpicStatus { peer_id: u128, epic_id: u32, status: Status },
    GetStory { peer_id: u128, epic_id: u32, story_id: u32 },
    AddStory { peer_id: u128, epic_id: u32, story_name: Seq<char>, story_description: Seq<char> },
    DeleteStory { peer_id: u128, epic_id: u32, story_id: u32 },
    UpdateStoryStatus { peer_id: u128, epic_id: u32, story_id: u32, status: Status },
    UnparseableEvent { peer_id: u128 },
}

impl View for Event {
    type V = EventView;

    open spec fn view(&self) -> EventView {
        match self {
            Event::NewClient { peer_id } => EventView::NewClient { peer_id: *peer_id },
            Event::AddEpic { peer_id, epic_name, epic_description } => EventView::AddEpic {
                peer_id: *peer_id,
                epic_name: epic_name@,
                epic_description: epic_description@,
            },
            Event::DeleteEpic { peer_id, epic_id } => EventView::DeleteEpic {
                peer_id: *peer_id,
                epic_id: *epic_id,
            },
            Event::GetEpic { peer_id, epic_id } => EventView::GetEpic {
                peer_id: *peer_id,
                epic_id: *epic_id,
            },
            Event::UpdateEpicStatus { peer_id, epic_id, status } => EventView::UpdateEpicStatus {
                peer_id: *peer_id,
                epic_id: *epic_id,
                status: *status,
            },
            Event::GetStory { peer_id, epic_id, story_id } => EventView::GetStory {
                peer_id: *peer_id,
                epic_id: *epic_id,
                story_id: *story_id,
            },
            Event::AddStory { peer_id, epic_id, story_name, story_description } =>
                EventView::AddStory {
                peer_id: *peer_id,
                epic_id: *epic_id,
                story_name: story_name@,
                story_description: story_description@,
            },
            Event::DeleteStory { peer_id, epic_id, story_id } => EventView::DeleteStory {
                peer_id: *peer_id,
                epic_id: *epic_id,
                story_id: *story_id,
            },
            Event::UpdateStoryStatus { peer_id, epic_id, story_id, status } =>
                EventView::UpdateStoryStatus {
                peer_id: *peer_id,
                epic_id: *epic_id,
                story_id: *story_id,
                status: *status,
            },
            Event::UnparseableEvent { peer_id } => EventView::UnparseableEvent {
                peer_id: *peer_id,
            },
        }
    }
}

/// The client that sent an event.
pub open spec fn event_peer(e: EventView) -> u128 {
    match e {
        EventView::NewClient { peer_id } => peer_id,
        EventView::AddEpic { peer_id, .. } => peer_id,
        EventView::DeleteEpic { peer_id, .. } => peer_id,
        EventView::GetEpic { peer_id, .. } => peer_id,
        EventView::UpdateEpicStatus { peer_id, .. } => peer_id,
        EventView::GetStory { peer_id, .. } => peer_id,
        EventView::AddStory { peer_id, .. } => peer_id,
        EventView::DeleteStory { peer_id, .. } => peer_id,
        EventView::UpdateStoryStatus { peer_id, .. } => peer_id,
        EventView::UnparseableEvent { peer_id } => peer_id,
    }
}

/// The little-endian `u32` at bytes `at` to `at + 3` of a tag.
pub open spec fn tag_u32(tag: Seq<u8>, at: int) -> u32 {
    le_u32_of(tag.subrange(at, at + 4)) as u32
}

/// The characters that `len` bytes of `body` from `start` encode, if they are there and are
/// valid UTF-8.
pub open spec fn body_text(body: Seq<u8>, start: int, len: int) -> Option<Seq<char>> {
    if start + len <= body.len() && valid_utf8(body.subrange(start, start + len)) {
        Some(decode_utf8(body.subrange(start, start + len)))
    } else {
        None
    }
}

/// The `AddEpic` request that a tag and the bytes after it hold: the name and the description
/// whose byte lengths the tag gives, read from `body` in that order.
pub open spec fn add_epic_event(peer_id: u128, tag: Seq<u8>, body: Seq<u8>) -> Option<EventView> {
    let name_len = tag_u32(tag, 1) as int;
    let description_len = tag_u32(tag, 5) as int;
    match (body_text(body, 0, name_len), body_text(body, name_len, description_len)) {
        (Some(n), Some(d)) => Some(EventView::AddEpic { peer_id, epic_name: n, epic_description: d }),
        _ => None,
    }
}

/// The `AddStory` request that a tag and the bytes after it hold.
pub open spec fn add_story_event(peer_id: u128, tag: Seq<u8>, body: Seq<u8>) -> Option<
    EventView,
> {
    let name_len = tag_u32(tag, 5) as int;
    let description_len = tag_u32(tag, 9) as int;
    match (body_text(body, 0, name_len), body_text(body, name_len, description_len)) {
        (Some(n), Some(d)) => Some(
            EventView::AddStory {
                peer_id,
                epic_id: tag_u32(tag, 1),
                story_name: n,
                story_description: d,
            },
        ),
        _ => None,
    }
}

/// The `UpdateEpicStatus` request a tag holds, if its status byte names a status.
pub open spec fn update_epic_status_event(peer_id: u128, tag: Seq<u8>) -> Option<EventView> {
    match status_of_byte(tag[5]) {
        Some(status) => Some(EventView::UpdateEpicStatus { peer_id, epic_id: tag_u32(tag, 1), status }),
        None => None,
    }
}

/// The `UpdateStoryStatus` request a tag holds, if its status byte names a status.
pub open spec fn update_story_status_event(peer_id: u128, tag: Seq<u8>) -> Option<EventView> {
    match status_of_byte(tag[9]) {
        Some(status) => Some(
            EventView::UpdateStoryStatus {
                peer_id,
                epic_id: tag_u32(tag, 1),
                story_id: tag_u32(tag, 5),
                status,
            },
        ),
        None => None,
    }
}

/// Whether the first byte of a tag names a request: whether any of its bits is set.
pub open spec fn names_request(b: u8) -> bool {
    b & 1 != 0 || b & 2 != 0 || b & 4 != 0 || b & 8 != 0 || b & 16 != 0 || b & 32 != 0 || b & 64
        != 0 || b & 128 != 0
}

/// The request that the tag and the bytes after it hold, for the client `peer_id`: the lowest
/// bit set in the first byte of the tag names the request; `None` when no bit is set, when the
/// bytes are missing or not UTF-8, or when a status byte names no status.
pub open spec fn parsed_event(peer_id: u128, tag: Seq<u8>, body: Seq<u8>) -> Option<EventView> {
    let b = tag[0];
    if b & 1 != 0 {
        add_epic_event(peer_id, tag, body)
    } else if b & 2 != 0 {
        Some(EventView::DeleteEpic { peer_id, epic_id: tag_u32(tag, 1) })
    } else if b & 4 != 0 {
        Some(EventView::GetEpic { peer_id, epic_id: tag_u32(tag, 1) })
    } else if b & 8 != 0 {
        update_epic_status_event(peer_id, tag)
    } else if b & 16 != 0 {
        Some(EventView::GetStory { peer_id, epic_id: tag_u32(tag, 1), story_id: tag_u32(tag, 5) })
    } else if b & 32 != 0 {
        add_story_event(peer_id, tag, body)
    } else if b & 64 != 0 {
        Some(EventView::DeleteStory { peer_id, epic_id: tag_u32(tag, 1), story_id: tag_u32(tag, 5) })
    } else if b & 128 != 0 {
        update_story_status_event(peer_id, tag)
    } else {
        None
    }
}

/// The request that the bytes a client sends hold, read as the server reads them: a 13-byte
/// tag, then the bytes after it.
#[verifier::opaque]
pub open spec fn request_event(peer_id: u128, bytes: Seq<u8>) -> Option<EventView> {
    parsed_event(peer_id, bytes.take(13), bytes.skip(13))
}

/// A request of a 13-byte tag followed by `body` is read as the tag and the body.
pub proof fn lemma_request_event_split(peer_id: u128, tag: Seq<u8>, body: Seq<u8>)
    requires
        tag.len() == 13,
    ensures
        request_event(peer_id, tag + body) == parsed_event(peer_id, tag, body),
{
    reveal(request_event);
    assert((tag + body).take(13) =~= tag);
    assert((tag + body).skip(13) =~= body);
}

/// The number of bytes that follow a tag: the byte lengths of the name and description of an
/// epic or a story to add, and none for the other requests.
pub open spec fn body_len(tag: Seq<u8>) -> int {
    let b = tag[0];
    if b & 1 != 0 {
        tag_u32(tag, 1) + tag_u32(tag, 5)
    } else if b & 2 != 0 || b & 4 != 0 || b & 8 != 0 || b & 16 != 0 {
        0
    } else if b & 32 != 0 {
        tag_u32(tag, 5) + tag_u32(tag, 9)
    } else {
        0
    }
}

/// The tag of a request to add an epic with `name` and `description`.
pub open spec fn add_epic_tag_bytes(name: Seq<char>, description: Seq<char>) -> Seq<u8> {
    seq![1u8] + le_bytes(byte_len(name) as u32) + le_bytes(byte_len(description) as u32) + zeros(4)
}

/// The tag of a request that names only an epic.
pub open spec fn epic_tag_bytes(kind: u8, epic_id: u32) -> Seq<u8> {
    seq![kind] + le_bytes(epic_id) + zeros(8)
}

/// The tag of a request to update the status of an epic.
pub open spec fn update_epic_status_tag_bytes(epic_id: u32, status: u8) -> Seq<u8> {
    seq![8u8] + le_bytes(epic_id) + seq![status] + zeros(7)
}

/// The tag of a request that names an epic and one of its stories.
pub open spec fn story_tag_bytes(kind: u8, epic_id: u32, story_id: u32) -> Seq<u8> {
    seq![kind] + le_bytes(epic_id) + le_bytes(story_id) + zeros(4)
}

/// The tag of a request to add a story with `name` and `description` to an epic.
pub open spec fn add_story_tag_bytes(epic_id: u32, name: Seq<char>, description: Seq<char>) -> Seq<
    u8,
> {
    seq![32u8] + le_bytes(epic_id) + le_bytes(byte_len(name) as u32) + le_bytes(
        byte_len(description) as u32,
    )
}

/// The tag of a request to update the status of a story.
pub open spec fn update_story_status_tag_bytes(epic_id: u32, story_id: u32, status: u8) -> Seq<u8> {
    seq![128u8] + le_bytes(epic_id) + le_bytes(story_id) + seq![status] + zeros(3)
}

/// Reads `len` bytes of `body` from `start` as UTF-8 text, failing with `ParseError` when the
/// bytes are missing or are not UTF-8.
fn read_text(body: &[u8], start: u64, len: u64, what: &str) -> (r: Result<String, DbError>)
    ensures
        match body_text(body@, start as int, len as int) {
            Some(t) => r matches Ok(s) && s@ == t,
            None => r matches Err(DbError::ParseError(_)),
        },
{
    if start > body.len() as u64 || len > body.len() as u64 - start {
        return Err(DbError::ParseError(concat("unable to read bytes from stream: ", what)));
    }
    let bytes = slice_to_vec(body, start as usize, (start + len) as usize);
    match string_from_utf8(bytes) {
        Some(s) => Ok(s),
        None => Err(DbError::ParseError(concat("unable to parse as well formed utf8: ", what))),
    }
}

impl Event {
    /// Returns the id of the client that sent the event.
    pub fn peer_id(&self) -> (r: u128)
        ensures
            r == event_peer(self@),
    {
        match self {
            Event::NewClient { peer_id } => *peer_id,
            Event::AddEpic { peer_id, .. } => *peer_id,
            Event::DeleteEpic { peer_id, .. } => *peer_id,
            Event::GetEpic { peer_id, .. } => *peer_id,
            Event::UpdateEpicStatus { peer_id, .. } => *peer_id,
            Event::GetStory { peer_id, .. } => *peer_id,
            Event::AddStory { peer_id, .. } => *peer_id,
            Event::DeleteStory { peer_id, .. } => *peer_id,
            Event::UpdateStoryStatus { peer_id, .. } => *peer_id,
            Event::UnparseableEvent { peer_id } => *peer_id,
        }
    }

    /// The number of bytes that follow `tag` in a request: for an epic or a story to add, the
    /// byte lengths of its name and description; for the other requests none.
    pub fn body_len(tag: &[u8; 13]) -> (n: u64)
        ensures
            n == body_len(tag@),
    {
        let event_byte = tag[0];
        if event_byte & 1 != 0 {
            let name_len = parse_4_bytes(&tag[1..5]);
            let description_len = parse_4_bytes(&tag[5..9]);
            name_len as u64 + description_len as u64
        } else if event_byte & 2 != 0 || event_byte & 4 != 0 || event_byte & 8 != 0 || event_byte
            & 16 != 0 {
            0
        } else if event_byte & 32 != 0 {
            let name_len = parse_4_bytes(&tag[5..9]);
            let description_len = parse_4_bytes(&tag[9..13]);
            name_len as u64 + description_len as u64
        } else {
            0
        }
    }

    /// Creates the event that `tag` and the bytes after it, `body`, hold, for the client
    /// `client_id`.
    ///
    /// The lowest bit set in the first byte of the tag names the request. Fails with
    /// `DoesNotExist` when no bit is set, and with `ParseError` when the bytes of a name or a
    /// description are missing or are not UTF-8, or when a status byte names no status.
    pub fn try_create(client_id: u128, tag: &[u8; 13], body: &[u8]) -> (r: Result<Event, DbError>)
        ensures
            r is Ok <==> parsed_event(client_id, tag@, body@) is Some,
            r matches Ok(e) ==> parsed_event(client_id, tag@, body@) == Some(e@),
            r matches Err(e) ==> if names_request(tag@[0]) {
                e is ParseError
            } else {
                e is DoesNotExist
            },
    {
        let event_byte = tag[0];
        if event_byte & 1 != 0 {
            Event::try_create_add_epic(client_id, tag, body)
        } else if event_byte & 2 != 0 {
            Event::try_create_delete_epic(client_id, tag)
        } else if event_byte & 4 != 0 {
            Event::try_create_get_epic(client_id, tag)
        } else if event_byte & 8 != 0 {
            Event::try_create_update_epic_status(client_id, tag)
        } else if event_byte & 16 != 0 {
            Event::try_create_get_story(client_id, tag)
        } else if event_byte & 32 != 0 {
            Event::try_create_add_story(client_id, tag, body)
        } else if event_byte & 64 != 0 {
            Event::try_create_delete_story(client_id, tag)
        } else if event_byte & 128 != 0 {
            Event::try_create_update_story_status(client_id, tag)
        } else {
            Err(DbError::DoesNotExist("unable to parse tag and stream".to_owned()))
        }
    }

    /// The event that `tag` and `body` hold for the client `client_id`, or, when they hold
    /// none, an `UnparseableEvent` for that client, which the server answers as such.
    pub fn from_request(client_id: u128, tag: &[u8; 13], body: &[u8]) -> (e: Event)
        ensures
            match parsed_event(client_id, tag@, body@) {
                Some(v) => e@ == v,
                None => e@ == (EventView::UnparseableEvent { peer_id: client_id }),
            },
    {
        match Event::try_create(client_id, tag, body) {
            Ok(event) => event,
            Err(_e) => Event::UnparseableEvent { peer_id: client_id },
        }
    }

    /// Creates an `AddEpic` event from the name and description lengths of `tag` and the bytes
    /// in `body`; fails with `ParseError` when those bytes are missing or are not UTF-8.
    pub fn try_create_add_epic(client_id: u128, tag: &[u8; 13], body: &[u8]) -> (r: Result<
        Event,
        DbError,
    >)
        ensures
            match add_epic_event(client_id, tag@, body@) {
                Some(e) => r matches Ok(ev) && ev@ == e,
                None => r matches Err(DbError::ParseError(_)),
            },
    {
        let epic_name_len = parse_4_bytes(&tag[1..5]);
        let epic_description_len = parse_4_bytes(&tag[5..9]);
        let epic_name = match read_text(body, 0, epic_name_len as u64, "epic name") {
            Ok(s) => s,
            Err(e) => return Err(e),
        };
        let epic_description = match read_text(
            body,
            epic_name_len as u64,
            epic_description_len as u64,
            "epic description",
        ) {
            Ok(s) => s,
            Err(e) => return Err(e),
        };
        Ok(Event::AddEpic { peer_id: client_id, epic_name, epic_description })
    }

    /// Creates a `DeleteEpic` event for the epic id of `tag`.
    pub fn try_create_delete_epic(client_id: u128, tag: &[u8; 13]) -> (r: Result<Event, DbError>)
        ensures
            r matches Ok(e) && e@ == (EventView::DeleteEpic { peer_id: client_id, epic_id: tag_u32(tag@, 1) }),
    {
        let epic_id = parse_4_bytes(&tag[1..5]);
        Ok(Event::DeleteEpic { peer_id: client_id, epic_id })
    }

    /// Creates a `GetEpic` event for the epic id of `tag`.
    pub fn try_create_get_epic(client_id: u128, tag: &[u8; 13]) -> (r: Result<Event, DbError>)
        ensures
            r matches Ok(e) && e@ == (EventView::GetEpic { peer_id: client_id, epic_id: tag_u32(tag@, 1) }),
    {
        let epic_id = parse_4_bytes(&tag[1..5]);
        Ok(Event::GetEpic { peer_id: client_id, epic_id })
    }

    /// Creates an `UpdateEpicStatus` event for the epic id and status byte of `tag`; fails with
    /// `ParseError` when the byte names no status.
    pub fn try_create_update_epic_status(client_id: u128, tag: &[u8; 13]) -> (r: Result<
        Event,
        DbError,
    >)
        ensures
            match update_epic_status_event(client_id, tag@) {
                Some(e) => r matches Ok(ev) && ev@ == e,
                None => r matches Err(DbError::ParseError(_)),
            },
    {
        let epic_id = parse_4_bytes(&tag[1..5]);
        let epic_status = tag[5];
        let status = match Status::try_from_byte(epic_status) {
            Ok(s) => s,
            Err(e) => return Err(e),
        };
        Ok(Event::UpdateEpicStatus { peer_id: client_id, epic_id, status })
    }

    /// Creates a `GetStory` event for the epic and story ids of `tag`.
    pub fn try_create_get_story(client_id: u128, tag: &[u8; 13]) -> (r: Result<Event, DbError>)
        ensures
            r matches Ok(e) && e@ == (EventView::GetStory {
                peer_id: client_id,
                epic_id: tag_u32(tag@, 1),
                story_id: tag_u32(tag@, 5),
            }),
    {
        let epic_id = parse_4_bytes(&tag[1..5]);
        let story_id = parse_4_bytes(&tag[5..9]);
        Ok(Event::GetStory { peer_id: client_id, epic_id, story_id })
    }

    /// Creates an `AddStory` event from the epic id and the name and description lengths of
    /// `tag` and the bytes in `body`; fails with `ParseError` when those bytes are missing or
    /// are not UTF-8.
    pub fn try_create_add_story(client_id: u128, tag: &[u8; 13], body: &[u8]) -> (r: Result<
        Event,
        DbError,
    >)
        ensures
            match add_story_event(client_id, tag@, body@) {
                Some(e) => r matches Ok(ev) && ev@ == e,
                None => r matches Err(DbError::ParseError(_)),
            },
    {
        let epic_id = parse_4_bytes(&tag[1..5]);
        let story_name_len = parse_4_bytes(&tag[5..9]);
        let story_description_len = parse_4_bytes(&tag[9..13]);
        let story_name = match read_text(body, 0, story_name_len as u64, "story name") {
            Ok(s) => s,
            Err(e) => return Err(e),
        };
        let story_description = match read_text(
            body,
            story_name_len as u64,
            story_description_len as u64,
            "story description",
        ) {
            Ok(s) => s,
            Err(e) => return Err(e),
        };
        Ok(Event::AddStory { peer_id: client_id, epic_id, story_name, story_description })
    }

    /// Creates a `DeleteStory` event for the epic and story ids of `tag`.
    pub fn try_create_delete_story(client_id: u128, tag: &[u8; 13]) -> (r: Result<Event, DbError>)
        ensures
            r matches Ok(e) && e@ == (EventView::DeleteStory {
                peer_id: client_id,
                epic_id: tag_u32(tag@, 1),
                story_id: tag_u32(tag@, 5),
            }),
    {
        let epic_id = parse_4_bytes(&tag[1..5]);
        let story_id = parse_4_bytes(&tag[5..9]);
        Ok(Event::DeleteStory { peer_id: client_id, epic_id, story_id })
    }

    /// Creates an `UpdateStoryStatus` event for the epic id, story id and status byte of
    /// `tag`; fails with `ParseError` when the byte names no status.
    pub fn try_create_update_story_status(client_id: u128, tag: &[u8; 13]) -> (r: Result<
        Event,
        DbError,
    >)
        ensures
            match update_story_status_event(client_id, tag@) {
                Some(e) => r matches Ok(ev) && ev@ == e,
                None => r matches Err(DbError::ParseError(_)),
            },
    {
        let epic_id = parse_4_bytes(&tag[1..5]);
        let story_id = parse_4_bytes(&tag[5..9]);
        let story_status = match Status::try_from_byte(tag[9]) {
            Ok(s) => s,
            Err(e) => return Err(e),
        };
        Ok(Event::UpdateStoryStatus { peer_id: client_id, epic_id, story_id, status: story_status })
    }
}

impl Event {
    /// Creates a tag that parses as a request to add an epic with `epic_name` and
    /// `epic_description`: the request bit, then the low four bytes of the byte lengths of the
    /// name and the description.
    pub fn add_epic_tag(epic_name: &String, epic_description: &String) -> (tag: [u8; 13])
        ensures
            tag@ == add_epic_tag_bytes(epic_name@, epic_description@),
    {
        let epic_name_bytes_len = str_byte_len(epic_name.as_str());
        let epic_description_bytes_len = str_byte_len(epic_description.as_str());
        let mut tag = [0u8; 13];
        tag[0] = 1;
        put_le_u32(&mut tag, 1, epic_name_bytes_len as u32);
        put_le_u32(&mut tag, 5, epic_description_bytes_len as u32);
        assert(tag@ =~= add_epic_tag_bytes(epic_name@, epic_description@));
        tag
    }

    /// Creates a tag that parses as a request to delete the epic with `epic_id`.
    pub fn delete_epic_tag(epic_id: u32) -> (tag: [u8; 13])
        ensures
            tag@ == epic_tag_bytes(2, epic_id),
    {
        let mut tag = [0u8; 13];
        tag[0] = 2;
        put_le_u32(&mut tag, 1, epic_id);
        assert(tag@ =~= epic_tag_bytes(2, epic_id));
        tag
    }

    /// Creates a tag that parses as a request for the epic with `epic_id`.
    pub fn get_epic_tag(epic_id: u32) -> (tag: [u8; 13])
        ensures
            tag@ == epic_tag_bytes(4, epic_id),
    {
        let mut tag = [0u8; 13];
        tag[0] = 4;
        put_le_u32(&mut tag, 1, epic_id);
        assert(tag@ =~= epic_tag_bytes(4, epic_id));
        tag
    }

    /// Creates a tag that parses as a request to update the status of the epic with `epic_id`
    /// to the status whose byte is `status`; it parses only where `status` names a status.
    pub fn get_update_epic_status_tag(epic_id: u32, status: u8) -> (tag: [u8; 13])
        ensures
            tag@ == update_epic_status_tag_bytes(epic_id, status),
    {
        let mut tag = [0u8; 13];
        tag[0] = 8;
        put_le_u32(&mut tag, 1, epic_id);
        tag[5] = status;
        assert(tag@ =~= update_epic_status_tag_bytes(epic_id, status));
        tag
    }

    /// Creates a tag that parses as a request for the story with `story_id` of the epic with
    /// `epic_id`.
    pub fn get_story_tag(epic_id: u32, story_id: u32) -> (tag: [u8; 13])
        ensures
            tag@ == story_tag_bytes(16, epic_id, story_id),
    {
        let mut tag = [0u8; 13];
        tag[0] = 16;
        put_le_u32(&mut tag, 1, epic_id);
        put_le_u32(&mut tag, 5, story_id);
        assert(tag@ =~= story_tag_bytes(16, epic_id, story_id));
        tag
    }

    /// Creates a tag that parses as a request to add a story with `story_name` and
    /// `story_description` to the epic with `epic_id`.
    pub fn get_add_story_tag(epic_id: u32, story_name: &String, story_description: &String) -> (tag:
        [u8; 13])
        ensures
            tag@ == add_story_tag_bytes(epic_id, story_name@, story_description@),
    {
        let story_name_bytes_len = str_byte_len(story_name.as_str());
        let story_description_bytes_len = str_byte_len(story_description.as_str());
        let mut tag = [0u8; 13];
        tag[0] = 32;
        put_le_u32(&mut tag, 1, epic_id);
        put_le_u32(&mut tag, 5, story_name_bytes_len as u32);
        put_le_u32(&mut tag, 9, story_description_bytes_len as u32);
        assert(tag@ =~= add_story_tag_bytes(epic_id, story_name@, story_description@));
        tag
    }

    /// Creates a tag that parses as a request to delete the story with `story_id` of the epic
    /// with `epic_id`.
    pub fn get_delete_story_tag(epic_id: u32, story_id: u32) -> (tag: [u8; 13])
        ensures
            tag@ == story_tag_bytes(64, epic_id, story_id),
    {
        let mut tag = [0u8; 13];
        tag[0] = 64;
        put_le_u32(&mut tag, 1, epic_id);
        put_le_u32(&mut tag, 5, story_id);
        assert(tag@ =~= story_tag_bytes(64, epic_id, story_id));
        tag
    }

    /// Creates a tag that parses as a request to update the status of the story with
    /// `story_id` of the epic with `epic_id` to the status whose byte is `status`; it parses
    /// only where `status` names a status.
    pub fn get_update_story_status_tag(epic_id: u32, story_id: u32, status: u8) -> (tag: [u8; 13])
        ensures
            tag@ == update_story_status_tag_bytes(epic_id, story_id, status),
    {
        let mut tag = [0u8; 13];
        tag[0] = 128;
        put_le_u32(&mut tag, 1, epic_id);
        put_le_u32(&mut tag, 5, story_id);
        tag[9] = status;
        assert(tag@ =~= update_story_status_tag_bytes(epic_id, story_id, status));
        tag
    }
}

/// Which bits the first byte of each request tag sets.
proof fn lemma_request_bits()
    ensures
        1u8 & 1 != 0,
        2u8 & 1 == 0 && 2u8 & 2 != 0,
        4u8 & 1 == 0 && 4u8 & 2 == 0 && 4u8 & 4 != 0,
        8u8 & 1 == 0 && 8u8 & 2 == 0 && 8u8 & 4 == 0 && 8u8 & 8 != 0,
        16u8 & 1 == 0 && 16u8 & 2 == 0 && 16u8 & 4 == 0 && 16u8 & 8 == 0 && 16u8 & 16 != 0,
        32u8 & 1 == 0 && 32u8 & 2 == 0 && 32u8 & 4 == 0 && 32u8 & 8 == 0 && 32u8 & 16 == 0 && 32u8
            & 32 != 0,
        64u8 & 1 == 0 && 64u8 & 2 == 0 && 64u8 & 4 == 0 && 64u8 & 8 == 0 && 64u8 & 16 == 0 && 64u8
            & 32 == 0 && 64u8 & 64 != 0,
        128u8 & 1 == 0 && 128u8 & 2 == 0 && 128u8 & 4 == 0 && 128u8 & 8 == 0 && 128u8 & 16 == 0
            && 128u8 & 32 == 0 && 128u8 & 64 == 0 && 128u8 & 128 != 0,
{
    assert(1u8 & 1 != 0 && (2u8 & 1 == 0 && 2u8 & 2 != 0) && (4u8 & 1 == 0 && 4u8 & 2 == 0 && 4u8
        & 4 != 0) && (8u8 & 1 == 0 && 8u8 & 2 == 0 && 8u8 & 4 == 0 && 8u8 & 8 != 0) && (16u8 & 1
        == 0 && 16u8 & 2 == 0 && 16u8 & 4 == 0 && 16u8 & 8 == 0 && 16u8 & 16 != 0) && (32u8 & 1
        == 0 && 32u8 & 2 == 0 && 32u8 & 4 == 0 && 32u8 & 8 == 0 && 32u8 & 16 == 0 && 32u8 & 32
        != 0) && (64u8 & 1 == 0 && 64u8 & 2 == 0 && 64u8 & 4 == 0 && 64u8 & 8 == 0 && 64u8 & 16
        == 0 && 64u8 & 32 == 0 && 64u8 & 64 != 0) && (128u8 & 1 == 0 && 128u8 & 2 == 0 && 128u8
        & 4 == 0 && 128u8 & 8 == 0 && 128u8 & 16 == 0 && 128u8 & 32 == 0 && 128u8 & 64 == 0
        && 128u8 & 128 != 0)) by (bit_vector);
}

/// The name and the description of a request, encoded one after the other, read back.
proof fn lemma_body_texts(name: Seq<char>, description: Seq<char>)
    ensures
        ({
            let body = utf8_bytes(name) + utf8_bytes(description);
            &&& body_text(body, 0, byte_len(name) as int) == Some(name)
            &&& body_text(body, byte_len(name) as int, byte_len(description) as int) == Some(
                description,
            )
        }),
{
    let a = utf8_bytes(name);
    let b = utf8_bytes(description);
    assert((a + b).subrange(0, a.len() as int) =~= a);
    assert((a + b).subrange(a.len() as int, (a.len() + b.len()) as int) =~= b);
}

/// A tag made to add an epic parses, with the name and the description after it, as that
/// request, and announces their byte lengths, for a name and a description of at most
/// `u32::MAX` bytes each.
pub proof fn lemma_add_epic_tag_parses(peer_id: u128, name: Seq<char>, description: Seq<char>)
    requires
        byte_len(name) <= u32::MAX,
        byte_len(description) <= u32::MAX,
    ensures
        parsed_event(peer_id, add_epic_tag_bytes(name, description), utf8_bytes(name) + utf8_bytes(description))
            == Some(EventView::AddEpic { peer_id, epic_name: name, epic_description: description }),
        body_len(add_epic_tag_bytes(name, description)) == byte_len(name) + byte_len(description),
{
    let tag = add_epic_tag_bytes(name, description);
    lemma_request_bits();
    lemma_body_texts(name, description);
    lemma_le_bytes_roundtrip(byte_len(name) as u32);
    lemma_le_bytes_roundtrip(byte_len(description) as u32);
    assert(tag.subrange(1, 5) =~= le_bytes(byte_len(name) as u32));
    assert(tag.subrange(5, 9) =~= le_bytes(byte_len(description) as u32));
}

/// A tag made to add a story parses, with the name and the description after it, as that
/// request, and announces their byte lengths, for a name and a description of at most
/// `u32::MAX` bytes each.
pub proof fn lemma_add_story_tag_parses(
    peer_id: u128,
    epic_id: u32,
    name: Seq<char>,
    description: Seq<char>,
)
    requires
        byte_len(name) <= u32::MAX,
        byte_len(description) <= u32::MAX,
    ensures
        parsed_event(
            peer_id,
            add_story_tag_bytes(epic_id, name, description),
            utf8_bytes(name) + utf8_bytes(description),
        ) == Some(
            EventView::AddStory { peer_id, epic_id, story_name: name, story_description: description },
        ),
        body_len(add_story_tag_bytes(epic_id, name, description)) == byte_len(name) + byte_len(
            description,
        ),
{
    let tag = add_story_tag_bytes(epic_id, name, description);
    lemma_request_bits();
    lemma_body_texts(name, description);
    lemma_le_bytes_roundtrip(epic_id);
    lemma_le_bytes_roundtrip(byte_len(name) as u32);
    lemma_le_bytes_roundtrip(byte_len(description) as u32);
    assert(tag.subrange(1, 5) =~= le_bytes(epic_id));
    assert(tag.subrange(5, 9) =~= le_bytes(byte_len(name) as u32));
    assert(tag.subrange(9, 13) =~= le_bytes(byte_len(description) as u32));
}

/// Tags made to delete an epic or to ask for one parse as that request, whatever follows
/// them, and announce that nothing follows.
pub proof fn lemma_epic_tags_parse(peer_id: u128, epic_id: u32, body: Seq<u8>)
    ensures
        parsed_event(peer_id, epic_tag_bytes(2, epic_id), body) == Some(
            EventView::DeleteEpic { peer_id, epic_id },
        ),
        parsed_event(peer_id, epic_tag_bytes(4, epic_id), body) == Some(
            EventView::GetEpic { peer_id, epic_id },
        ),
        body_len(epic_tag_bytes(2, epic_id)) == 0,
        body_len(epic_tag_bytes(4, epic_id)) == 0,
{
    lemma_request_bits();
    lemma_le_bytes_roundtrip(epic_id);
    assert(epic_tag_bytes(2, epic_id).subrange(1, 5) =~= le_bytes(epic_id));
    assert(epic_tag_bytes(4, epic_id).subrange(1, 5) =~= le_bytes(epic_id));
}

/// Tags made to ask for a story or to delete one parse as that request, whatever follows
/// them, and announce that nothing follows.
pub proof fn lemma_story_tags_parse(peer_id: u128, epic_id: u32, story_id: u32, body: Seq<u8>)
    ensures
        parsed_event(peer_id, story_tag_bytes(16, epic_id, story_id), body) == Some(
            EventView::GetStory { peer_id, epic_id, story_id },
        ),
        parsed_event(peer_id, story_tag_bytes(64, epic_id, story_id), body) == Some(
            EventView::DeleteStory { peer_id, epic_id, story_id },
        ),
        body_len(story_tag_bytes(16, epic_id, story_id)) == 0,
        body_len(story_tag_bytes(64, epic_id, story_id)) == 0,
{
    lemma_request_bits();
    lemma_le_bytes_roundtrip(epic_id);
    lemma_le_bytes_roundtrip(story_id);
    assert(story_tag_bytes(16, epic_id, story_id).subrange(1, 5) =~= le_bytes(epic_id));
    assert(story_tag_bytes(16, epic_id, story_id).subrange(5, 9) =~= le_bytes(story_id));
    assert(story_tag_bytes(64, epic_id, story_id).subrange(1, 5) =~= le_bytes(epic_id));
    assert(story_tag_bytes(64, epic_id, story_id).subrange(5, 9) =~= le_bytes(story_id));
}

/// Tags made to update the status of an epic or of a story parse as that request, whatever
/// follows them, for a status byte that names a status, and announce that nothing follows.
pub proof fn lemma_status_tags_parse(peer_id: u128, epic_id: u32, story_id: u32, status: u8, body: Seq<u8>)
    requires
        status_of_byte(status) is Some,
    ensures
        parsed_event(peer_id, update_epic_status_tag_bytes(epic_id, status), body) == Some(
            EventView::UpdateEpicStatus { peer_id, epic_id, status: status_of_byte(status).unwrap() },
        ),
        parsed_event(peer_id, update_story_status_tag_bytes(epic_id, story_id, status), body)
            == Some(
            EventView::UpdateStoryStatus {
                peer_id,
                epic_id,
                story_id,
                status: status_of_byte(status).unwrap(),
            },
        ),
        body_len(update_epic_status_tag_bytes(epic_id, status)) == 0,
        body_len(update_story_status_tag_bytes(epic_id, story_id, status)) == 0,
{
    lemma_request_bits();
    lemma_le_bytes_roundtrip(epic_id);
    lemma_le_bytes_roundtrip(story_id);
    let t1 = update_epic_status_tag_bytes(epic_id, status);
    let t2 = update_story_status_tag_bytes(epic_id, story_id, status);
    assert(t1.subrange(1, 5) =~= le_bytes(epic_id));
    assert(t1[5] == status);
    assert(t2.subrange(1, 5) =~= le_bytes(epic_id));
    assert(t2.subrange(5, 9) =~= le_bytes(story_id));
    assert(t2[9] == status);
}

} // verus!

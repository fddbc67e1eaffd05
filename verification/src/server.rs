//! The decisions of the server's broker: for each event a client sends, how the database and
//! the set of connected clients change, which response goes back to the client, and what has
//! to be written to disk.
//!
//! The broker's loop, the channels to the clients and the file writes run around these
//! decisions; they act on what the decisions return.

use std::collections::HashSet;
use vstd::prelude::*;
use crate::events::{event_peer, Event, EventView};
use crate::interface::pages::{
    epic_frame_of, story_frame_of,
    epic_frames_from, epic_page_frames, lemma_epic_page_reads_epic_bytes, lemma_home_page_reads_db_bytes,
    lemma_story_page_reads_story_bytes, story_page_frame,
};
use crate::interface::frame::{EpicFrameView, StoryFrameView};
use crate::models::{
    byte_len, epic_well_formed, stories_in_order, lemma_epic_bytes_roundtrip, read_epic_file, story_map, EpicRead,
    lemma_map_insert_same, epic_bytes, epic_file_path, epic_headers_bytes, is_key_order, story_bytes, DbError, DbState,
    DbView, EpicView, Status, StoryView,
};
use crate::response::{lemma_response_decode_encode, response_data, response_encoding, Response};
use crate::interface::{response_outcome, PageView};
use crate::utils::AsBytes;

verus! {

broadcast use vstd::std_specs::hash::group_hash_axioms;

/// What has to be written to disk once a request was handled.
#[derive(Debug, Clone, Copy, PartialEq, Eq, Structural)]
pub enum Persist {
    /// Nothing that is stored changed.
    Nothing,
    /// The database file and the file of each epic.
    Database,
    /// The file of the epic with this id.
    Epic(u32),
}

/// What the broker does once it has handled an event.
#[derive(Debug)]
pub enum Handled {
    /// Send the response to the client, then write what `Persist` names.
    Reply(Response, Persist),
    /// A story was added to the epic with the first id, under the second id: write that epic's
    /// file first, and hand whether the write succeeded to `Broker::story_added_reply`, which
    /// gives the response and what to write after it.
    WriteEpicFirst(u32, u32),
}

/// What the broker holds: the database and the ids of the connected clients.
pub struct BrokerView {
    pub db: DbView,
    pub clients: Set<u128>,
}

/// The state of the server's broker: the database, and the ids of the clients that are
/// connected and can be answered.
pub struct Broker {
    db: DbState,
    clients: HashSet<u128>,
}

impl View for Broker {
    type V = BrokerView;

    closed spec fn view(&self) -> BrokerView {
        BrokerView { db: self.db@, clients: self.clients@ }
    }
}

/// `b` is the bytes of the records of the epics of `db`, in some order of their ids.
pub open spec fn db_bytes(db: DbView, b: Seq<u8>) -> bool {
    exists|ks: Seq<u32>| #[trigger] is_key_order(db.epics, ks) && b == epic_headers_bytes(db.epics, ks)
}

/// `b` is the bytes of the epic `e` with its stories, in some order of their ids.
pub open spec fn epic_bytes_of(e: EpicView, b: Seq<u8>) -> bool {
    exists|ks: Seq<u32>| #[trigger] is_key_order(e.stories, ks) && b == epic_bytes(e, ks)
}

/// The answer to a request that names an epic the database does not hold.
pub open spec fn epic_missing(db: DbView, epic_id: u32, reply: Response) -> bool {
    reply matches Response::EpicDoesNotExist(i, d) && i == epic_id && db_bytes(db, d@)
}

/// The answer to a request that names a story the epic `e` does not hold.
pub open spec fn story_missing(e: EpicView, epic_id: u32, story_id: u32, reply: Response) -> bool {
    reply matches Response::StoryDoesNotExist(i, s, d) && i == epic_id && s == story_id
        && epic_bytes_of(e, d@)
}

/// `new` is `old` with the epic `epic_id` replaced by `e`.
pub open spec fn with_epic(old: BrokerView, epic_id: u32, e: EpicView) -> BrokerView {
    BrokerView { db: DbView { epics: old.db.epics.insert(epic_id, e), ..old.db }, ..old }
}

/// A client connects: a new client is added and gets the records of the epics; one that is
/// already connected is told so.
pub open spec fn new_client_outcome(old: BrokerView, new: BrokerView, peer_id: u128, reply: Response) -> bool {
    if old.clients.contains(peer_id) {
        &&& new == old
        &&& reply is ClientAlreadyExists
    } else {
        &&& new == BrokerView { clients: old.clients.insert(peer_id), ..old }
        &&& reply matches Response::ClientAddedOk(d) && db_bytes(old.db, d@)
    }
}

/// A new open epic with no stories is added under the next unique id; the client gets that id
/// and the records of the epics, and the database is written.
pub open spec fn add_epic_outcome(
    old: BrokerView,
    new: BrokerView,
    name: Seq<char>,
    description: Seq<char>,
    reply: Response,
    persist: Persist,
) -> bool {
    let id = (old.db.last_unique_id + 1) as u32;
    let e = EpicView {
        id,
        name,
        description,
        status: Status::Open,
        file_path: epic_file_path(old.db.db_dir, old.db.epic_dir, id),
        stories: Map::empty(),
    };
    &&& new == BrokerView {
        db: DbView { epics: old.db.epics.insert(id, e), last_unique_id: id, ..old.db },
        ..old
    }
    &&& reply matches Response::AddedEpicOk(i, d) && i == id && db_bytes(new.db, d@)
    &&& persist == Persist::Database
}

/// The epic is deleted, and the database written; or it does not exist.
pub open spec fn delete_epic_outcome(
    old: BrokerView,
    new: BrokerView,
    epic_id: u32,
    reply: Response,
    persist: Persist,
) -> bool {
    if old.db.epics.contains_key(epic_id) {
        &&& new == BrokerView { db: DbView { epics: old.db.epics.remove(epic_id), ..old.db }, ..old }
        &&& reply matches Response::DeletedEpicOk(i, d) && i == epic_id && db_bytes(new.db, d@)
        &&& persist == Persist::Database
    } else {
        &&& new == old
        &&& epic_missing(old.db, epic_id, reply)
        &&& persist == Persist::Nothing
    }
}

/// The client gets the bytes of the epic, or learns that it does not exist.
pub open spec fn get_epic_outcome(
    old: BrokerView,
    new: BrokerView,
    epic_id: u32,
    reply: Response,
    persist: Persist,
) -> bool {
    &&& new == old
    &&& persist == Persist::Nothing
    &&& if old.db.epics.contains_key(epic_id) {
        reply matches Response::GetEpicOk(i, d) && i == epic_id && epic_bytes_of(
            old.db.epics[epic_id],
            d@,
        )
    } else {
        epic_missing(old.db, epic_id, reply)
    }
}

/// The epic takes the new status, the client gets its bytes and its file is written; or it
/// does not exist.
pub open spec fn update_epic_status_outcome(
    old: BrokerView,
    new: BrokerView,
    epic_id: u32,
    status: Status,
    reply: Response,
    persist: Persist,
) -> bool {
    if old.db.epics.contains_key(epic_id) {
        let e = EpicView { status, ..old.db.epics[epic_id] };
        &&& new == with_epic(old, epic_id, e)
        &&& reply matches Response::EpicStatusUpdateOk(i, d) && i == epic_id && epic_bytes_of(e, d@)
        &&& persist == Persist::Epic(epic_id)
    } else {
        &&& new == old
        &&& epic_missing(old.db, epic_id, reply)
        &&& persist == Persist::Nothing
    }
}

/// The client gets the bytes of the story, or learns that the story or its epic does not
/// exist.
pub open spec fn get_story_outcome(
    old: BrokerView,
    new: BrokerView,
    epic_id: u32,
    story_id: u32,
    reply: Response,
    persist: Persist,
) -> bool {
    &&& new == old
    &&& persist == Persist::Nothing
    &&& if !old.db.epics.contains_key(epic_id) {
        epic_missing(old.db, epic_id, reply)
    } else if old.db.epics[epic_id].stories.contains_key(story_id) {
        reply matches Response::GetStoryOk(s, d) && s == story_id && d@ == story_bytes(
            old.db.epics[epic_id].stories[story_id],
        )
    } else {
        story_missing(old.db.epics[epic_id], epic_id, story_id, reply)
    }
}

/// The broker `old` with a new open story in the epic with `epic_id`, under the next unique
/// id.
pub open spec fn with_new_story(old: BrokerView, epic_id: u32, name: Seq<char>, description: Seq<char>) -> BrokerView {
    let id = (old.db.last_unique_id + 1) as u32;
    let e = old.db.epics[epic_id];
    let story = StoryView { id, epic_id, name, description, status: Status::Open };
    let e2 = EpicView { stories: e.stories.insert(id, story), ..e };
    BrokerView {
        db: DbView { epics: old.db.epics.insert(epic_id, e2), last_unique_id: id, ..old.db },
        ..old
    }
}

/// How the broker handles a request to add a story: when the epic does not exist, or already
/// holds a story with the next unique id, the client is told that the epic does not exist (in
/// the second case the id is used up all the same); otherwise the story is added, and the
/// epic's file is to be written before the client is answered.
pub open spec fn add_story_handled(
    old: BrokerView,
    new: BrokerView,
    epic_id: u32,
    name: Seq<char>,
    description: Seq<char>,
    h: Handled,
) -> bool {
    let id = (old.db.last_unique_id + 1) as u32;
    if !old.db.epics.contains_key(epic_id) {
        &&& new == old
        &&& h matches Handled::Reply(reply, persist) && epic_missing(old.db, epic_id, reply) && persist
            == Persist::Nothing
    } else if old.db.epics[epic_id].stories.contains_key(id) {
        &&& new == BrokerView { db: DbView { last_unique_id: id, ..old.db }, ..old }
        &&& h matches Handled::Reply(reply, persist) && epic_missing(new.db, epic_id, reply) && persist
            == Persist::Nothing
    } else {
        &&& new == with_new_story(old, epic_id, name, description)
        &&& h == Handled::WriteEpicFirst(epic_id, id)
    }
}

/// The answer once the file of the epic with `epic_id`, to which the story with `story_id` was
/// added, was written or failed to be: when it was written, the client gets the story's id and
/// the bytes of the epic, and the epic's file is written again; when it failed, the client is
/// told that the epic does not exist and gets the records of the epics.
pub open spec fn story_reply_outcome(
    b: BrokerView,
    epic_id: u32,
    story_id: u32,
    written: bool,
    reply: Response,
    persist: Persist,
) -> bool {
    if written {
        &&& reply matches Response::AddedStoryOk(i, s, d) && i == epic_id && s == story_id
            && epic_bytes_of(b.db.epics[epic_id], d@)
        &&& persist == Persist::Epic(epic_id)
    } else {
        &&& epic_missing(b.db, epic_id, reply)
        &&& persist == Persist::Nothing
    }
}

/// A new open story is added to the epic under the next unique id, the client gets its id and
/// the bytes of the epic, and the epic's file is written. When the epic does not exist, or
/// already holds a story with that id, the client is told that the epic does not exist; in
/// the second case the id is used up all the same. This is the outcome when the epic's file
/// could be written.
pub open spec fn add_story_outcome(
    old: BrokerView,
    new: BrokerView,
    epic_id: u32,
    name: Seq<char>,
    description: Seq<char>,
    reply: Response,
    persist: Persist,
) -> bool {
    let id = (old.db.last_unique_id + 1) as u32;
    if !old.db.epics.contains_key(epic_id) {
        &&& new == old
        &&& epic_missing(old.db, epic_id, reply)
        &&& persist == Persist::Nothing
    } else if old.db.epics[epic_id].stories.contains_key(id) {
        &&& new == BrokerView { db: DbView { last_unique_id: id, ..old.db }, ..old }
        &&& epic_missing(new.db, epic_id, reply)
        &&& persist == Persist::Nothing
    } else {
        &&& new == with_new_story(old, epic_id, name, description)
        &&& reply matches Response::AddedStoryOk(i, s, d) && i == epic_id && s == id
            && epic_bytes_of(new.db.epics[epic_id], d@)
        &&& persist == Persist::Epic(epic_id)
    }
}

/// The story is deleted from its epic, the client gets the bytes of the epic and the epic's
/// file is written; or the story or its epic does not exist.
pub open spec fn delete_story_outcome(
    old: BrokerView,
    new: BrokerView,
    epic_id: u32,
    story_id: u32,
    reply: Response,
    persist: Persist,
) -> bool {
    if !old.db.epics.contains_key(epic_id) {
        &&& new == old
        &&& epic_missing(old.db, epic_id, reply)
        &&& persist == Persist::Nothing
    } else if old.db.epics[epic_id].stories.contains_key(story_id) {
        let e = old.db.epics[epic_id];
        let e2 = EpicView { stories: e.stories.remove(story_id), ..e };
        &&& new == with_epic(old, epic_id, e2)
        &&& reply matches Response::DeletedStoryOk(i, s, d) && i == epic_id && s == story_id
            && epic_bytes_of(e2, d@)
        &&& persist == Persist::Epic(epic_id)
    } else {
        &&& new == old
        &&& story_missing(old.db.epics[epic_id], epic_id, story_id, reply)
        &&& persist == Persist::Nothing
    }
}

/// The story takes the new status, the client gets the bytes of its epic and the epic's file
/// is written; or the story or its epic does not exist.
pub open spec fn update_story_status_outcome(
    old: BrokerView,
    new: BrokerView,
    epic_id: u32,
    story_id: u32,
    status: Status,
    reply: Response,
    persist: Persist,
) -> bool {
    if !old.db.epics.contains_key(epic_id) {
        &&& new == old
        &&& epic_missing(old.db, epic_id, reply)
        &&& persist == Persist::Nothing
    } else if old.db.epics[epic_id].stories.contains_key(story_id) {
        let e = old.db.epics[epic_id];
        let story = StoryView { status, ..e.stories[story_id] };
        let e2 = EpicView { stories: e.stories.insert(story_id, story), ..e };
        &&& new == with_epic(old, epic_id, e2)
        &&& reply matches Response::StoryStatusUpdateOk(i, s, d) && i == epic_id && s == story_id
            && epic_bytes_of(e2, d@)
        &&& persist == Persist::Epic(epic_id)
    } else {
        &&& new == old
        &&& story_missing(old.db.epics[epic_id], epic_id, story_id, reply)
        &&& persist == Persist::Nothing
    }
}

/// How the broker handles an event: how its state changes, what it answers the client that
/// sent the event, and what it writes to disk.
pub open spec fn event_outcome(
    old: BrokerView,
    new: BrokerView,
    e: EventView,
    reply: Response,
    persist: Persist,
) -> bool {
    match e {
        EventView::NewClient { peer_id } => new_client_outcome(old, new, peer_id, reply) && persist
            == Persist::Nothing,
        EventView::AddEpic { epic_name, epic_description, .. } => add_epic_outcome(
            old,
            new,
            epic_name,
            epic_description,
            reply,
            persist,
        ),
        EventView::DeleteEpic { epic_id, .. } => delete_epic_outcome(old, new, epic_id, reply, persist),
        EventView::GetEpic { epic_id, .. } => get_epic_outcome(old, new, epic_id, reply, persist),
        EventView::UpdateEpicStatus { epic_id, status, .. } => update_epic_status_outcome(
            old,
            new,
            epic_id,
            status,
            reply,
            persist,
        ),
        EventView::GetStory { epic_id, story_id, .. } => get_story_outcome(
            old,
            new,
            epic_id,
            story_id,
            reply,
            persist,
        ),
        EventView::AddStory { epic_id, story_name, story_description, .. } => add_story_outcome(
            old,
            new,
            epic_id,
            story_name,
            story_description,
            reply,
            persist,
        ),
        EventView::DeleteStory { epic_id, story_id, .. } => delete_story_outcome(
            old,
            new,
            epic_id,
            story_id,
            reply,
            persist,
        ),
        EventView::UpdateStoryStatus { epic_id, story_id, status, .. } =>
            update_story_status_outcome(old, new, epic_id, story_id, status, reply, persist),
        EventView::UnparseableEvent { .. } => new == old && reply is RequestNotParsed && persist
            == Persist::Nothing,
    }
}

/// How the broker handles an event: a request to add a story as `add_story_handled` says, and
/// every other event with the response and the writes that `event_outcome` gives.
pub open spec fn handled_outcome(old: BrokerView, new: BrokerView, e: EventView, h: Handled) -> bool {
    match e {
        EventView::AddStory { epic_id, story_name, story_description, .. } => add_story_handled(
            old,
            new,
            epic_id,
            story_name,
            story_description,
            h,
        ),
        _ => h matches Handled::Reply(reply, persist) && event_outcome(old, new, e, reply, persist),
    }
}

/// Whether the broker can handle an event in a state: any client but a new one must be
/// connected, and a request that takes a new id needs one left.
pub open spec fn can_handle(b: BrokerView, e: EventView) -> bool {
    &&& (e !is NewClient ==> b.clients.contains(event_peer(e)))
    &&& (e is AddEpic ==> b.db.last_unique_id < u32::MAX)
    &&& (e matches EventView::AddStory { epic_id, .. } && b.db.epics.contains_key(epic_id)
        ==> b.db.last_unique_id < u32::MAX)
}

impl Broker {
    /// Creates a broker for the database `db`, with no client connected.
    pub fn new(db: DbState) -> (b: Broker)
        ensures
            b@ == (BrokerView { db: db@, clients: Set::empty() }),
    {
        Broker { db, clients: HashSet::new() }
    }

    /// Returns the database.
    pub fn db(&self) -> (r: &DbState)
        ensures
            r@ == self@.db,
    {
        &self.db
    }

    /// Returns whether the client `peer_id` is connected.
    pub fn is_connected(&self, peer_id: u128) -> (r: bool)
        ensures
            r == self@.clients.contains(peer_id),
    {
        self.clients.contains(&peer_id)
    }

    /// Returns whether the broker can handle `event` in its state: any client but a new one
    /// must be connected, and a request that takes a new id needs one left.
    pub fn can_handle(&self, event: &Event) -> (r: bool)
        ensures
            r == can_handle(self@, event@),
    {
        let peer_ok = match event {
            Event::NewClient { .. } => true,
            Event::AddEpic { peer_id, .. } => self.clients.contains(peer_id),
            Event::DeleteEpic { peer_id, .. } => self.clients.contains(peer_id),
            Event::GetEpic { peer_id, .. } => self.clients.contains(peer_id),
            Event::UpdateEpicStatus { peer_id, .. } => self.clients.contains(peer_id),
            Event::GetStory { peer_id, .. } => self.clients.contains(peer_id),
            Event::AddStory { peer_id, .. } => self.clients.contains(peer_id),
            Event::DeleteStory { peer_id, .. } => self.clients.contains(peer_id),
            Event::UpdateStoryStatus { peer_id, .. } => self.clients.contains(peer_id),
            Event::UnparseableEvent { peer_id } => self.clients.contains(peer_id),
        };
        let id_ok = match event {
            Event::AddEpic { .. } => self.db.last_unique_id() < u32::MAX,
            Event::AddStory { epic_id, .. } => !self.db.contains_epic(*epic_id)
                || self.db.last_unique_id() < u32::MAX,
            _ => true,
        };
        peer_ok && id_ok
    }

    /// Removes the client `peer_id` once it has disconnected; fails with `DoesNotExist`,
    /// changing nothing, when no such client is connected.
    pub fn disconnect(&mut self, peer_id: u128) -> (r: Result<(), DbError>)
        ensures
            r is Ok <==> old(self)@.clients.contains(peer_id),
            r matches Err(e) ==> e is DoesNotExist,
            final(self)@ == (BrokerView { clients: old(self)@.clients.remove(peer_id), ..old(self)@ }),
    {
        if self.clients.remove(&peer_id) {
            Ok(())
        } else {
            proof {
                assert(old(self)@.clients.remove(peer_id) =~= old(self)@.clients);
            }
            Err(DbError::DoesNotExist("client should exist in clients map".to_owned()))
        }
    }

    /// Handles a client connecting: a new client is added and gets the records of the epics;
    /// one that is already connected is told so.
    pub fn handle_new_client(&mut self, peer_id: u128) -> (reply: Response)
        ensures
            new_client_outcome(old(self)@, final(self)@, peer_id, reply),
    {
        if !self.clients.contains(&peer_id) {
            self.clients.insert(peer_id);
            Response::ClientAddedOk(self.db.as_bytes())
        } else {
            Response::ClientAlreadyExists
        }
    }

    /// Handles a request to add an epic.
    pub fn add_epic_handler(&mut self, peer_id: u128, epic_name: String, epic_description: String) -> (r: (
        Response,
        Persist,
    ))
        requires
            old(self)@.clients.contains(peer_id),
            old(self)@.db.last_unique_id < u32::MAX,
        ensures
            add_epic_outcome(old(self)@, final(self)@, epic_name@, epic_description@, r.0, r.1),
    {
        let epic_id = self.db.add_epic(epic_name, epic_description);
        (Response::AddedEpicOk(epic_id, self.db.as_bytes()), Persist::Database)
    }

    /// Handles a request to delete an epic.
    pub fn delete_epic_handler(&mut self, peer_id: u128, epic_id: u32) -> (r: (Response, Persist))
        requires
            old(self)@.clients.contains(peer_id),
        ensures
            delete_epic_outcome(old(self)@, final(self)@, epic_id, r.0, r.1),
    {
        match self.db.delete_epic(epic_id) {
            Ok(_epic) => (Response::DeletedEpicOk(epic_id, self.db.as_bytes()), Persist::Database),
            Err(_e) => (Response::EpicDoesNotExist(epic_id, self.db.as_bytes()), Persist::Nothing),
        }
    }

    /// Handles a request for an epic.
    pub fn get_epic_handler(&self, peer_id: u128, epic_id: u32) -> (r: (Response, Persist))
        requires
            self@.clients.contains(peer_id),
        ensures
            get_epic_outcome(self@, self@, epic_id, r.0, r.1),
    {
        match self.db.get_epic(epic_id) {
            Some(epic) => (Response::GetEpicOk(epic_id, epic.as_bytes()), Persist::Nothing),
            None => (Response::EpicDoesNotExist(epic_id, self.db.as_bytes()), Persist::Nothing),
        }
    }

    /// Handles a request to update the status of an epic.
    pub fn update_epic_status_handler(&mut self, peer_id: u128, epic_id: u32, status: Status) -> (r: (
        Response,
        Persist,
    ))
        requires
            old(self)@.clients.contains(peer_id),
        ensures
            update_epic_status_outcome(old(self)@, final(self)@, epic_id, status, r.0, r.1),
    {
        match self.db.get_epic_mut(epic_id) {
            Some(epic) => {
                epic.update_status(status);
                let bytes = epic.as_bytes();
                (Response::EpicStatusUpdateOk(epic_id, bytes), Persist::Epic(epic_id))
            },
            None => (Response::EpicDoesNotExist(epic_id, self.db.as_bytes()), Persist::Nothing),
        }
    }

    /// Handles a request for a story.
    pub fn get_story_handler(&self, peer_id: u128, epic_id: u32, story_id: u32) -> (r: (
        Response,
        Persist,
    ))
        requires
            self@.clients.contains(peer_id),
        ensures
            get_story_outcome(self@, self@, epic_id, story_id, r.0, r.1),
    {
        match self.db.get_epic(epic_id) {
            Some(epic) => match epic.get_story(story_id) {
                Some(story) => (Response::GetStoryOk(story_id, story.as_bytes()), Persist::Nothing),
                None => (
                    Response::StoryDoesNotExist(epic_id, story_id, epic.as_bytes()),
                    Persist::Nothing,
                ),
            },
            None => (Response::EpicDoesNotExist(epic_id, self.db.as_bytes()), Persist::Nothing),
        }
    }

    /// Handles a request to add a story to an epic. When the story is added, the epic's file
    /// is to be written before the client is answered (see `story_added_reply`).
    pub fn add_story_handler(
        &mut self,
        peer_id: u128,
        epic_id: u32,
        story_name: String,
        story_description: String,
    ) -> (h: Handled)
        requires
            old(self)@.clients.contains(peer_id),
            old(self)@.db.epics.contains_key(epic_id) ==> old(self)@.db.last_unique_id < u32::MAX,
        ensures
            add_story_handled(old(self)@, final(self)@, epic_id, story_name@, story_description@, h),
    {
        match self.db.add_story(epic_id, story_name, story_description) {
            Ok(()) => Handled::WriteEpicFirst(epic_id, self.db.last_unique_id()),
            Err(_e) => Handled::Reply(
                Response::EpicDoesNotExist(epic_id, self.db.as_bytes()),
                Persist::Nothing,
            ),
        }
    }

    /// Answers a request whose story was added to the epic with `epic_id` under `story_id`,
    /// once the epic's file was written (`written`) or failed to be: the client gets the
    /// story's id and the bytes of the epic, and the file is written again; or, when the write
    /// failed, the client is told that the epic does not exist. The story stays added either
    /// way.
    pub fn story_added_reply(&self, epic_id: u32, story_id: u32, written: bool) -> (r: (
        Response,
        Persist,
    ))
        requires
            self@.db.epics.contains_key(epic_id),
        ensures
            story_reply_outcome(self@, epic_id, story_id, written, r.0, r.1),
    {
        if written {
            match self.db.get_epic(epic_id) {
                Some(epic) => (
                    Response::AddedStoryOk(epic_id, story_id, epic.as_bytes()),
                    Persist::Epic(epic_id),
                ),
                None => (Response::EpicDoesNotExist(epic_id, self.db.as_bytes()), Persist::Nothing),
            }
        } else {
            (Response::EpicDoesNotExist(epic_id, self.db.as_bytes()), Persist::Nothing)
        }
    }

    /// Handles a request to delete a story from an epic.
    pub fn delete_story_handler(&mut self, peer_id: u128, epic_id: u32, story_id: u32) -> (r: (
        Response,
        Persist,
    ))
        requires
            old(self)@.clients.contains(peer_id),
        ensures
            delete_story_outcome(old(self)@, final(self)@, epic_id, story_id, r.0, r.1),
    {
        broadcast use lemma_map_insert_same;

        match self.db.get_epic_mut(epic_id) {
            Some(epic) => match epic.delete_story(story_id) {
                Ok(_) => {
                    let bytes = epic.as_bytes();
                    (Response::DeletedStoryOk(epic_id, story_id, bytes), Persist::Epic(epic_id))
                },
                Err(_) => {
                    let bytes = epic.as_bytes();
                    (Response::StoryDoesNotExist(epic_id, story_id, bytes), Persist::Nothing)
                },
            },
            None => (Response::EpicDoesNotExist(epic_id, self.db.as_bytes()), Persist::Nothing),
        }
    }

    /// Handles a request to update the status of a story.
    pub fn update_story_status(&mut self, peer_id: u128, epic_id: u32, story_id: u32, status: Status) -> (r: (
        Response,
        Persist,
    ))
        requires
            old(self)@.clients.contains(peer_id),
        ensures
            update_story_status_outcome(old(self)@, final(self)@, epic_id, story_id, status, r.0, r.1),
    {
        broadcast use lemma_map_insert_same;

        match self.db.get_epic_mut(epic_id) {
            Some(epic) => match epic.update_story_status(story_id, status) {
                Ok(_) => {
                    let bytes = epic.as_bytes();
                    (Response::StoryStatusUpdateOk(epic_id, story_id, bytes), Persist::Epic(epic_id))
                },
                Err(_) => {
                    let bytes = epic.as_bytes();
                    (Response::StoryDoesNotExist(epic_id, story_id, bytes), Persist::Nothing)
                },
            },
            None => (Response::EpicDoesNotExist(epic_id, self.db.as_bytes()), Persist::Nothing),
        }
    }

    /// Handles a request that could not be parsed.
    pub fn unparseable_event_handler(&self, peer_id: u128) -> (r: Response)
        requires
            self@.clients.contains(peer_id),
        ensures
            r is RequestNotParsed,
    {
        Response::RequestNotParsed
    }

    /// Handles one event: changes the state as the event asks, and returns the response for
    /// the client that sent it and what has to be written to disk, or, for a story that was
    /// added, that its epic's file is to be written first.
    pub fn handle_event(&mut self, event: Event) -> (h: Handled)
        requires
            can_handle(old(self)@, event@),
        ensures
            handled_outcome(old(self)@, final(self)@, event@, h),
    {
        match event {
            Event::NewClient { peer_id } => Handled::Reply(self.handle_new_client(peer_id), Persist::Nothing),
            Event::AddEpic { peer_id, epic_name, epic_description } => {
                let (r, p) = self.add_epic_handler(peer_id, epic_name, epic_description);
                Handled::Reply(r, p)
            },
            Event::DeleteEpic { peer_id, epic_id } => {
                let (r, p) = self.delete_epic_handler(peer_id, epic_id);
                Handled::Reply(r, p)
            },
            Event::GetEpic { peer_id, epic_id } => {
                let (r, p) = self.get_epic_handler(peer_id, epic_id);
                Handled::Reply(r, p)
            },
            Event::UpdateEpicStatus { peer_id, epic_id, status } => {
                let (r, p) = self.update_epic_status_handler(peer_id, epic_id, status);
                Handled::Reply(r, p)
            },
            Event::GetStory { peer_id, epic_id, story_id } => {
                let (r, p) = self.get_story_handler(peer_id, epic_id, story_id);
                Handled::Reply(r, p)
            },
            Event::AddStory { peer_id, epic_id, story_name, story_description } =>
                self.add_story_handler(peer_id, epic_id, story_name, story_description),
            Event::DeleteStory { peer_id, epic_id, story_id } => {
                let (r, p) = self.delete_story_handler(peer_id, epic_id, story_id);
                Handled::Reply(r, p)
            },
            Event::UpdateStoryStatus { peer_id, epic_id, story_id, status } => {
                let (r, p) = self.update_story_status(peer_id, epic_id, story_id, status);
                Handled::Reply(r, p)
            },
            Event::UnparseableEvent { peer_id } => Handled::Reply(
                self.unparseable_event_handler(peer_id),
                Persist::Nothing,
            ),
        }
    }
}

/// Every id the database holds, of an epic or of a story, is at most its last unique id.
pub open spec fn ids_below_last(db: DbView) -> bool {
    forall|k: u32|
        #[trigger] db.epics.contains_key(k) ==> k <= db.last_unique_id && forall|s: u32|
            #[trigger] db.epics[k].stories.contains_key(s) ==> s <= db.last_unique_id
}

/// The answers that refuse a request: the epic or the story does not exist, the request was
/// not parsed, or the client was already connected.
pub open spec fn is_refusal(reply: Response) -> bool {
    ||| reply is EpicDoesNotExist
    ||| reply is StoryDoesNotExist
    ||| reply is RequestNotParsed
    ||| reply is ClientAlreadyExists
}

/// A refused request changes no epic, no story and no client, and nothing is written; only a
/// story that could not be added for an id already in use uses that id up.
pub proof fn lemma_refusal_changes_nothing(
    old: BrokerView,
    new: BrokerView,
    e: EventView,
    reply: Response,
    persist: Persist,
)
    requires
        event_outcome(old, new, e, reply, persist),
        is_refusal(reply),
    ensures
        new.db.epics == old.db.epics,
        new.clients == old.clients,
        persist == Persist::Nothing,
        !(e is AddStory) ==> new == old,
{
}

/// What is written covers what changed: when nothing is to be written no epic or story
/// changed, and when one epic's file is to be written only that epic, which the database
/// held, changed. Where the database is stored never changes.
pub proof fn lemma_persist_covers_changes(
    old: BrokerView,
    new: BrokerView,
    e: EventView,
    reply: Response,
    persist: Persist,
)
    requires
        event_outcome(old, new, e, reply, persist),
    ensures
        persist == Persist::Nothing ==> new.db.epics == old.db.epics,
        persist matches Persist::Epic(id) ==> old.db.epics.contains_key(id) && new.db.epics
            == old.db.epics.insert(id, new.db.epics[id]),
        new.db.db_dir == old.db.db_dir,
        new.db.db_file_name == old.db.db_file_name,
        new.db.epic_dir == old.db.epic_dir,
        new.db.file_path == old.db.file_path,
{
    broadcast use lemma_map_insert_same;

}

/// Handling an event keeps every id of an epic or a story at most the last unique id, so that
/// the next epic or story gets an id that nothing holds yet.
pub proof fn lemma_outcome_keeps_ids_below_last(
    old: BrokerView,
    new: BrokerView,
    e: EventView,
    reply: Response,
    persist: Persist,
)
    requires
        ids_below_last(old.db),
        can_handle(old, e),
        event_outcome(old, new, e, reply, persist),
    ensures
        ids_below_last(new.db),
        old.db.last_unique_id <= new.db.last_unique_id,
{
    assert forall|k: u32| #[trigger] new.db.epics.contains_key(k) implies k <= new.db.last_unique_id
        && forall|s: u32| #[trigger] new.db.epics[k].stories.contains_key(s)
            ==> s <= new.db.last_unique_id by {
        if old.db.epics.contains_key(k) {
            assert(k <= old.db.last_unique_id);
        }
        assert forall|s: u32| #[trigger] new.db.epics[k].stories.contains_key(s) implies s
            <= new.db.last_unique_id by {
            if old.db.epics.contains_key(k) && old.db.epics[k].stories.contains_key(s) {
                assert(s <= old.db.last_unique_id);
            }
            match e {
                EventView::AddStory { epic_id, .. } => {
                    if k == epic_id && old.db.epics.contains_key(k) {
                        assert(old.db.epics[k].stories.contains_key(s) || s == new.db.last_unique_id);
                    }
                },
                _ => {},
            }
        }
    }
}

/// An epic that was added is there to be read back: asking for it gives the new open epic,
/// with the name and the description it was added with and no stories.
pub proof fn lemma_added_epic_reads_back(
    s0: BrokerView,
    s1: BrokerView,
    s2: BrokerView,
    name: Seq<char>,
    description: Seq<char>,
    added: Response,
    written: Persist,
    read: Response,
    nothing: Persist,
)
    requires
        s0.db.last_unique_id < u32::MAX,
        add_epic_outcome(s0, s1, name, description, added, written),
        get_epic_outcome(s1, s2, (s0.db.last_unique_id + 1) as u32, read, nothing),
    ensures
        read matches Response::GetEpicOk(i, d) && i == s0.db.last_unique_id + 1 && epic_bytes_of(
            EpicView {
                id: i,
                name,
                description,
                status: Status::Open,
                file_path: epic_file_path(s0.db.db_dir, s0.db.epic_dir, i),
                stories: Map::empty(),
            },
            d@,
        ),
{
}

/// A story that was added is there to be read back: asking for it gives the bytes of the new
/// open story, with the name and the description it was added with.
pub proof fn lemma_added_story_reads_back(
    s0: BrokerView,
    s1: BrokerView,
    s2: BrokerView,
    epic_id: u32,
    name: Seq<char>,
    description: Seq<char>,
    added: Response,
    written: Persist,
    read: Response,
    nothing: Persist,
)
    requires
        s0.db.last_unique_id < u32::MAX,
        add_story_outcome(s0, s1, epic_id, name, description, added, written),
        added is AddedStoryOk,
        get_story_outcome(s1, s2, epic_id, (s0.db.last_unique_id + 1) as u32, read, nothing),
    ensures
        read matches Response::GetStoryOk(i, d) && i == s0.db.last_unique_id + 1 && d@
            == story_bytes(
            StoryView { id: i, epic_id, name, description, status: Status::Open },
        ),
{
}

/// A deleted epic is gone: asking for it afterwards is answered that it does not exist.
pub proof fn lemma_deleted_epic_is_gone(
    s0: BrokerView,
    s1: BrokerView,
    s2: BrokerView,
    epic_id: u32,
    deleted: Response,
    written: Persist,
    read: Response,
    nothing: Persist,
)
    requires
        delete_epic_outcome(s0, s1, epic_id, deleted, written),
        get_epic_outcome(s1, s2, epic_id, read, nothing),
    ensures
        read matches Response::EpicDoesNotExist(i, _) && i == epic_id,
        !s2.db.epics.contains_key(epic_id),
{
}

/// A deleted story is gone: asking for it afterwards is answered that it does not exist, or,
/// when its epic did not exist either, that the epic does not exist.
pub proof fn lemma_deleted_story_is_gone(
    s0: BrokerView,
    s1: BrokerView,
    s2: BrokerView,
    epic_id: u32,
    story_id: u32,
    deleted: Response,
    written: Persist,
    read: Response,
    nothing: Persist,
)
    requires
        delete_story_outcome(s0, s1, epic_id, story_id, deleted, written),
        get_story_outcome(s1, s2, epic_id, story_id, read, nothing),
    ensures
        s0.db.epics.contains_key(epic_id) ==> (read matches Response::StoryDoesNotExist(i, s, _)
            && i == epic_id && s == story_id),
        !s0.db.epics.contains_key(epic_id) ==> (read matches Response::EpicDoesNotExist(i, _) && i
            == epic_id),
{
}

/// An epic's new status is there to be read back: asking for the epic after its status was
/// updated gives the epic with that status and otherwise as it was.
pub proof fn lemma_epic_status_reads_back(
    s0: BrokerView,
    s1: BrokerView,
    s2: BrokerView,
    epic_id: u32,
    status: Status,
    updated: Response,
    written: Persist,
    read: Response,
    nothing: Persist,
)
    requires
        s0.db.epics.contains_key(epic_id),
        update_epic_status_outcome(s0, s1, epic_id, status, updated, written),
        get_epic_outcome(s1, s2, epic_id, read, nothing),
    ensures
        read matches Response::GetEpicOk(i, d) && i == epic_id && epic_bytes_of(
            EpicView { status, ..s0.db.epics[epic_id] },
            d@,
        ),
{
}

/// A story's new status is there to be read back: asking for the story after its status was
/// updated gives the bytes of the story with that status and otherwise as it was.
pub proof fn lemma_story_status_reads_back(
    s0: BrokerView,
    s1: BrokerView,
    s2: BrokerView,
    epic_id: u32,
    story_id: u32,
    status: Status,
    updated: Response,
    written: Persist,
    read: Response,
    nothing: Persist,
)
    requires
        s0.db.epics.contains_key(epic_id),
        s0.db.epics[epic_id].stories.contains_key(story_id),
        update_story_status_outcome(s0, s1, epic_id, story_id, status, updated, written),
        get_story_outcome(s1, s2, epic_id, story_id, read, nothing),
    ensures
        read matches Response::GetStoryOk(i, d) && i == story_id && d@ == story_bytes(
            StoryView { status, ..s0.db.epics[epic_id].stories[story_id] },
        ),
{
}

/// Adding a story in two steps, with the epic's file written in between, has the outcome of
/// `add_story_outcome`: the story is added, the client gets its id and the bytes of the epic,
/// and the epic's file is written again. Had the write failed, the story would stay added and
/// the client would be told that the epic does not exist, with nothing more written.
pub proof fn lemma_story_steps_give_outcome(
    old: BrokerView,
    new: BrokerView,
    epic_id: u32,
    name: Seq<char>,
    description: Seq<char>,
    h: Handled,
    written: bool,
    reply: Response,
    persist: Persist,
)
    requires
        add_story_handled(old, new, epic_id, name, description, h),
        h matches Handled::WriteEpicFirst(ei, si) && story_reply_outcome(new, ei, si, written, reply, persist),
    ensures
        written ==> add_story_outcome(old, new, epic_id, name, description, reply, persist),
        !written ==> {
            &&& new == with_new_story(old, epic_id, name, description)
            &&& reply matches Response::EpicDoesNotExist(i, _) && i == epic_id
            &&& persist == Persist::Nothing
        },
{
}

/// The answer to an epic's status update carries the epic as it stands after the update: its
/// bytes load as the epic, unchanged but for the status, which is the one asked for, and the
/// client's page of the epic read from them shows that status.
pub proof fn lemma_epic_status_reply_shows_new_status(
    old: BrokerView,
    new: BrokerView,
    epic_id: u32,
    status: Status,
    reply: Response,
    persist: Persist,
)
    requires
        update_epic_status_outcome(old, new, epic_id, status, reply, persist),
        old.db.epics.contains_key(epic_id),
        epic_well_formed(old.db.epics[epic_id]),
    ensures
        reply matches Response::EpicStatusUpdateOk(i, d) && i == epic_id && {
            let e = old.db.epics[epic_id];
            &&& read_epic_file(d@) matches EpicRead::Read(id, name, description, st, stories) && id
                == e.id && name == e.name && description == e.description && st == status && story_map(
                stories,
            ) == e.stories
            &&& epic_page_frames(d@) matches Ok((frame, _)) && frame.id == e.id && frame.status
                == status
        },
{
    let e = old.db.epics[epic_id];
    let e2 = EpicView { status, ..e };
    if let Response::EpicStatusUpdateOk(i, d) = reply {
        let ks = choose|ks: Seq<u32>| #[trigger] is_key_order(e2.stories, ks) && d@ == epic_bytes(e2, ks);
        assert(epic_well_formed(e2));
        lemma_epic_bytes_roundtrip(e2, ks);
        lemma_epic_page_reads_epic_bytes(e2, ks);
    }
}

/// The answer to a story's deletion carries its epic as it stands after the deletion: its
/// bytes load as the epic with its stories but the deleted one, no story record in them has
/// the deleted story's id, and the client's page of the epic read from them lists no such
/// story.
pub proof fn lemma_deleted_story_reply_lacks_it(
    old: BrokerView,
    new: BrokerView,
    epic_id: u32,
    story_id: u32,
    reply: Response,
    persist: Persist,
)
    requires
        delete_story_outcome(old, new, epic_id, story_id, reply, persist),
        old.db.epics.contains_key(epic_id),
        old.db.epics[epic_id].stories.contains_key(story_id),
        epic_well_formed(old.db.epics[epic_id]),
    ensures
        reply matches Response::DeletedStoryOk(i, s, d) && i == epic_id && s == story_id && {
            let e = old.db.epics[epic_id];
            &&& read_epic_file(d@) matches EpicRead::Read(id, _, _, _, stories) && id == e.id
                && story_map(stories) == e.stories.remove(story_id) && forall|j: int|
                0 <= j < stories.len() ==> (#[trigger] stories[j]).id != story_id
            &&& epic_page_frames(d@) matches Ok((frame, frames)) && frame.id == e.id && forall|j: int|
                0 <= j < frames.len() ==> (#[trigger] frames[j]).id != story_id
        },
{
    let e = old.db.epics[epic_id];
    let e2 = EpicView { stories: e.stories.remove(story_id), ..e };
    if let Response::DeletedStoryOk(i, s, d) = reply {
        let ks = choose|ks: Seq<u32>| #[trigger] is_key_order(e2.stories, ks) && d@ == epic_bytes(e2, ks);
        assert(epic_well_formed(e2));
        lemma_epic_bytes_roundtrip(e2, ks);
        lemma_epic_page_reads_epic_bytes(e2, ks);
        let stories = crate::models::stories_in_order(e2.stories, ks);
        assert forall|j: int| 0 <= j < stories.len() implies (#[trigger] stories[j]).id != story_id by {
            assert(ks.to_set().contains(ks[j]));
            assert(e2.stories.contains_key(ks[j]));
        }
    }
}

/// The bytes of a well-formed epic, in any order of its stories, load as the epic and read as
/// its page.
proof fn lemma_epic_reply_reads(e: EpicView, d: Seq<u8>)
    requires
        epic_well_formed(e),
        epic_bytes_of(e, d),
    ensures
        read_epic_file(d) matches EpicRead::Read(id, name, description, status, stories) && id == e.id
            && name == e.name && description == e.description && status == e.status && story_map(
            stories,
        ) == e.stories,
        epic_page_frames(d) matches Ok((frame, _)) && frame == crate::interface::pages::epic_frame_of(e),
{
    let ks = choose|ks: Seq<u32>| #[trigger] is_key_order(e.stories, ks) && d == epic_bytes(e, ks);
    lemma_epic_bytes_roundtrip(e, ks);
    lemma_epic_page_reads_epic_bytes(e, ks);
}

/// The answer to a story's status update carries its epic as it stands after the update: its
/// bytes load as the epic whose story `story_id` has the status asked for and is otherwise as
/// it was, every other story unchanged.
pub proof fn lemma_story_status_reply_shows_new_status(
    old: BrokerView,
    new: BrokerView,
    epic_id: u32,
    story_id: u32,
    status: Status,
    reply: Response,
    persist: Persist,
)
    requires
        update_story_status_outcome(old, new, epic_id, story_id, status, reply, persist),
        old.db.epics.contains_key(epic_id),
        old.db.epics[epic_id].stories.contains_key(story_id),
        epic_well_formed(old.db.epics[epic_id]),
    ensures
        reply matches Response::StoryStatusUpdateOk(i, s, d) && i == epic_id && s == story_id && {
            let e = old.db.epics[epic_id];
            read_epic_file(d@) matches EpicRead::Read(id, _, _, st, stories) && id == e.id && st
                == e.status && story_map(stories).contains_key(story_id) && story_map(
                stories,
            )[story_id].status == status && story_map(stories) == e.stories.insert(
                story_id,
                StoryView { status, ..e.stories[story_id] },
            )
        },
{
    let e = old.db.epics[epic_id];
    let e2 = EpicView {
        stories: e.stories.insert(story_id, StoryView { status, ..e.stories[story_id] }),
        ..e
    };
    if let Response::StoryStatusUpdateOk(i, s, d) = reply {
        assert(epic_well_formed(e2));
        lemma_epic_reply_reads(e2, d@);
    }
}

/// The answer to a story that was added carries its epic with the new story: the story's id is
/// the next unique id, and the bytes load as the epic whose stories are the old ones and the
/// new open story, with the name and the description asked for.
pub proof fn lemma_added_story_reply_holds_it(
    old: BrokerView,
    new: BrokerView,
    epic_id: u32,
    name: Seq<char>,
    description: Seq<char>,
    reply: Response,
    persist: Persist,
)
    requires
        old.db.last_unique_id < u32::MAX,
        add_story_outcome(old, new, epic_id, name, description, reply, persist),
        old.db.epics.contains_key(epic_id),
        old.db.epics[epic_id].id == epic_id,
        !old.db.epics[epic_id].stories.contains_key((old.db.last_unique_id + 1) as u32),
        epic_well_formed(old.db.epics[epic_id]),
        byte_len(name) <= u32::MAX,
        byte_len(description) <= u32::MAX,
    ensures
        reply matches Response::AddedStoryOk(i, s, d) && i == epic_id && s == old.db.last_unique_id + 1 && {
            let e = old.db.epics[epic_id];
            let story = StoryView { id: s, epic_id, name, description, status: Status::Open };
            read_epic_file(d@) matches EpicRead::Read(id, _, _, _, stories) && id == e.id
                && story_map(stories) == e.stories.insert(s, story) && story_map(stories)[s] == story
        },
{
    let e = old.db.epics[epic_id];
    let id = (old.db.last_unique_id + 1) as u32;
    let story = StoryView { id, epic_id, name, description, status: Status::Open };
    let e2 = EpicView { stories: e.stories.insert(id, story), ..e };
    assert(new.db.epics[epic_id] == e2);
    if let Response::AddedStoryOk(i, s, d) = reply {
        assert(crate::models::story_well_formed(story, id, e.id));
        assert(epic_well_formed(e2));
        lemma_epic_reply_reads(e2, d@);
    }
}

/// The answer to a request for an epic carries the epic: its bytes load as the epic the
/// database holds and read as its page.
pub proof fn lemma_get_epic_reply_reads_it(
    old: BrokerView,
    new: BrokerView,
    epic_id: u32,
    reply: Response,
    persist: Persist,
)
    requires
        get_epic_outcome(old, new, epic_id, reply, persist),
        old.db.epics.contains_key(epic_id),
        epic_well_formed(old.db.epics[epic_id]),
    ensures
        reply matches Response::GetEpicOk(i, d) && i == epic_id && {
            let e = old.db.epics[epic_id];
            &&& read_epic_file(d@) matches EpicRead::Read(id, name, description, status, stories) && id
                == e.id && name == e.name && description == e.description && status == e.status
                && story_map(stories) == e.stories
            &&& epic_page_frames(d@) matches Ok((frame, _)) && frame == crate::interface::pages::epic_frame_of(e)
        },
{
    if let Response::GetEpicOk(i, d) = reply {
        lemma_epic_reply_reads(old.db.epics[epic_id], d@);
    }
}

/// The answer to a request for a story carries the story: its bytes read as the page of that
/// story, with its id, epic, name, description and status.
pub proof fn lemma_get_story_reply_reads_it(
    old: BrokerView,
    new: BrokerView,
    epic_id: u32,
    story_id: u32,
    reply: Response,
    persist: Persist,
)
    requires
        get_story_outcome(old, new, epic_id, story_id, reply, persist),
        old.db.epics.contains_key(epic_id),
        old.db.epics[epic_id].stories.contains_key(story_id),
        byte_len(old.db.epics[epic_id].stories[story_id].name) <= u32::MAX,
        byte_len(old.db.epics[epic_id].stories[story_id].description) <= u32::MAX,
    ensures
        reply matches Response::GetStoryOk(i, d) && i == story_id && {
            let st = old.db.epics[epic_id].stories[story_id];
            story_page_frame(d@) == Ok::<StoryFrameView, crate::interface::frame::FrameFailure>(
                StoryFrameView {
                    id: st.id,
                    epic_id: st.epic_id,
                    name: st.name,
                    description: st.description,
                    status: st.status,
                },
            )
        },
{
    lemma_story_page_reads_story_bytes(old.db.epics[epic_id].stories[story_id]);
}

/// The records of a database whose names and descriptions fit, as the server sends them, read
/// as a home page with one frame per epic, each frame the epic filed under one key.
proof fn lemma_db_reply_reads(db: DbView, d: Seq<u8>)
    requires
        db_bytes(db, d),
        forall|k: u32| #[trigger] db.epics.contains_key(k) ==> byte_len(db.epics[k].name) <= u32::MAX
            && byte_len(db.epics[k].description) <= u32::MAX,
    ensures
        exists|ks: Seq<u32>|
            #[trigger] is_key_order(db.epics, ks) && epic_frames_from(d, 0) == Ok::<
                Seq<EpicFrameView>,
                crate::interface::frame::FrameFailure,
            >(ks.map_values(|k: u32| crate::interface::pages::epic_frame_of(db.epics[k]))),
{
    let ks = choose|ks: Seq<u32>| #[trigger] is_key_order(db.epics, ks) && d == epic_headers_bytes(db.epics, ks);
    lemma_home_page_reads_db_bytes(db.epics, ks);
}

/// The answer to an epic that was added carries the records of the database with the new
/// epic: read as a home page, one of its frames is the new open epic under the next unique id,
/// with the name and the description asked for, and every other frame is an epic the database
/// held.
pub proof fn lemma_added_epic_reply_lists_it(
    old: BrokerView,
    new: BrokerView,
    name: Seq<char>,
    description: Seq<char>,
    reply: Response,
    persist: Persist,
)
    requires
        old.db.last_unique_id < u32::MAX,
        add_epic_outcome(old, new, name, description, reply, persist),
        forall|k: u32| #[trigger] old.db.epics.contains_key(k) ==> byte_len(old.db.epics[k].name) <= u32::MAX
            && byte_len(old.db.epics[k].description) <= u32::MAX,
        byte_len(name) <= u32::MAX,
        byte_len(description) <= u32::MAX,
    ensures
        reply matches Response::AddedEpicOk(i, d) && i == old.db.last_unique_id + 1 && (
        epic_frames_from(d@, 0) matches Ok(frames) && (exists|j: int|
            0 <= j < frames.len() && #[trigger] frames[j] == EpicFrameView {
                id: i,
                name,
                description,
                status: Status::Open,
            }) && forall|j: int|
            0 <= j < frames.len() && (#[trigger] frames[j]).id != i ==> exists|k: u32|
                old.db.epics.contains_key(k) && frames[j] == crate::interface::pages::epic_frame_of(
                    #[trigger] old.db.epics[k],
                )),
{
    let id = (old.db.last_unique_id + 1) as u32;
    if let Response::AddedEpicOk(i, d) = reply {
        lemma_db_reply_reads(new.db, d@);
        let ks = choose|ks: Seq<u32>|
            #[trigger] is_key_order(new.db.epics, ks) && epic_frames_from(d@, 0) == Ok::<
                Seq<EpicFrameView>,
                crate::interface::frame::FrameFailure,
            >(ks.map_values(|k: u32| crate::interface::pages::epic_frame_of(new.db.epics[k])));
        let frames = ks.map_values(|k: u32| crate::interface::pages::epic_frame_of(new.db.epics[k]));
        assert(ks.to_set().contains(id));
        let j = choose|j: int| 0 <= j < ks.len() && ks[j] == id;
        assert(frames[j] == EpicFrameView { id, name, description, status: Status::Open });
        assert forall|j: int| 0 <= j < frames.len() && (#[trigger] frames[j]).id != i implies exists|k: u32|
            old.db.epics.contains_key(k) && frames[j] == crate::interface::pages::epic_frame_of(
                #[trigger] old.db.epics[k],
            ) by {
            assert(ks.to_set().contains(ks[j]));
            assert(ks[j] != id);
            assert(old.db.epics.contains_key(ks[j]) && frames[j] == crate::interface::pages::epic_frame_of(
                old.db.epics[ks[j]],
            ));
        }
    }
}

/// The answer to an epic's deletion carries the records of the database without it: read as a
/// home page, every frame is an epic the database still holds, and, where each epic is filed
/// under its own id, no frame has the deleted epic's id.
pub proof fn lemma_deleted_epic_reply_lacks_it(
    old: BrokerView,
    new: BrokerView,
    epic_id: u32,
    reply: Response,
    persist: Persist,
)
    requires
        old.db.epics.contains_key(epic_id),
        delete_epic_outcome(old, new, epic_id, reply, persist),
        forall|k: u32| #[trigger] old.db.epics.contains_key(k) ==> byte_len(old.db.epics[k].name) <= u32::MAX
            && byte_len(old.db.epics[k].description) <= u32::MAX && old.db.epics[k].id == k,
    ensures
        reply matches Response::DeletedEpicOk(i, d) && i == epic_id && (epic_frames_from(d@, 0) matches Ok(
            frames,
        ) && frames.len() == old.db.epics.len() - 1 && forall|j: int|
            0 <= j < frames.len() ==> (#[trigger] frames[j]).id != epic_id),
{
    if let Response::DeletedEpicOk(i, d) = reply {
        lemma_db_reply_reads(new.db, d@);
        let ks = choose|ks: Seq<u32>|
            #[trigger] is_key_order(new.db.epics, ks) && epic_frames_from(d@, 0) == Ok::<
                Seq<EpicFrameView>,
                crate::interface::frame::FrameFailure,
            >(ks.map_values(|k: u32| crate::interface::pages::epic_frame_of(new.db.epics[k])));
        let frames = ks.map_values(|k: u32| crate::interface::pages::epic_frame_of(new.db.epics[k]));
        assert forall|j: int| 0 <= j < frames.len() implies (#[trigger] frames[j]).id != epic_id by {
            assert(ks.to_set().contains(ks[j]));
            assert(new.db.epics.contains_key(ks[j]));
        }
        ks.unique_seq_to_set();
        assert(old.db.epics.dom().remove(epic_id) =~= new.db.epics.dom());
        assert(old.db.epics.dom().finite());
    }
}

/// Which kind bits the kinds of the responses that bring a page set.
proof fn lemma_page_kind_bits()
    ensures
        (0x8001u16 & 0x1u16) == 0x1u16 &&
        (0x8001u16 & 0x2u16) == 0x0u16 &&
        (0x8001u16 & 0x4u16) == 0x0u16 &&
        (0x8001u16 & 0x8u16) == 0x0u16 &&
        (0x8001u16 & 0x10u16) == 0x0u16 &&
        (0x8001u16 & 0x20u16) == 0x0u16 &&
        (0x8001u16 & 0x40u16) == 0x0u16 &&
        (0x8001u16 & 0x80u16) == 0x0u16 &&
        (0x8001u16 & 0x100u16) == 0x0u16 &&
        (0x8001u16 & 0x200u16) == 0x0u16 &&
        (0x8001u16 & 0x400u16) == 0x0u16 &&
        (0x8001u16 & 0x800u16) == 0x0u16 &&
        (0x8001u16 & 0x1000u16) == 0x0u16 &&
        (0x8004u16 & 0x1u16) == 0x0u16 &&
        (0x8004u16 & 0x2u16) == 0x0u16 &&
        (0x8004u16 & 0x4u16) == 0x4u16 &&
        (0x8004u16 & 0x8u16) == 0x0u16 &&
        (0x8004u16 & 0x10u16) == 0x0u16 &&
        (0x8004u16 & 0x20u16) == 0x0u16 &&
        (0x8004u16 & 0x40u16) == 0x0u16 &&
        (0x8004u16 & 0x80u16) == 0x0u16 &&
        (0x8004u16 & 0x100u16) == 0x0u16 &&
        (0x8004u16 & 0x200u16) == 0x0u16 &&
        (0x8004u16 & 0x400u16) == 0x0u16 &&
        (0x8004u16 & 0x800u16) == 0x0u16 &&
        (0x8004u16 & 0x1000u16) == 0x0u16 &&
        (0x8008u16 & 0x1u16) == 0x0u16 &&
        (0x8008u16 & 0x2u16) == 0x0u16 &&
        (0x8008u16 & 0x4u16) == 0x0u16 &&
        (0x8008u16 & 0x8u16) == 0x8u16 &&
        (0x8008u16 & 0x10u16) == 0x0u16 &&
        (0x8008u16 & 0x20u16) == 0x0u16 &&
        (0x8008u16 & 0x40u16) == 0x0u16 &&
        (0x8008u16 & 0x80u16) == 0x0u16 &&
        (0x8008u16 & 0x100u16) == 0x0u16 &&
        (0x8008u16 & 0x200u16) == 0x0u16 &&
        (0x8008u16 & 0x400u16) == 0x0u16 &&
        (0x8008u16 & 0x800u16) == 0x0u16 &&
        (0x8008u16 & 0x1000u16) == 0x0u16 &&
        (0x8010u16 & 0x1u16) == 0x0u16 &&
        (0x8010u16 & 0x2u16) == 0x0u16 &&
        (0x8010u16 & 0x4u16) == 0x0u16 &&
        (0x8010u16 & 0x8u16) == 0x0u16 &&
        (0x8010u16 & 0x10u16) == 0x10u16 &&
        (0x8010u16 & 0x20u16) == 0x0u16 &&
        (0x8010u16 & 0x40u16) == 0x0u16 &&
        (0x8010u16 & 0x80u16) == 0x0u16 &&
        (0x8010u16 & 0x100u16) == 0x0u16 &&
        (0x8010u16 & 0x200u16) == 0x0u16 &&
        (0x8010u16 & 0x400u16) == 0x0u16 &&
        (0x8010u16 & 0x800u16) == 0x0u16 &&
        (0x8010u16 & 0x1000u16) == 0x0u16 &&
        (0x8020u16 & 0x1u16) == 0x0u16 &&
        (0x8020u16 & 0x2u16) == 0x0u16 &&
        (0x8020u16 & 0x4u16) == 0x0u16 &&
        (0x8020u16 & 0x8u16) == 0x0u16 &&
        (0x8020u16 & 0x10u16) == 0x0u16 &&
        (0x8020u16 & 0x20u16) == 0x20u16 &&
        (0x8020u16 & 0x40u16) == 0x0u16 &&
        (0x8020u16 & 0x80u16) == 0x0u16 &&
        (0x8020u16 & 0x100u16) == 0x0u16 &&
        (0x8020u16 & 0x200u16) == 0x0u16 &&
        (0x8020u16 & 0x400u16) == 0x0u16 &&
        (0x8020u16 & 0x800u16) == 0x0u16 &&
        (0x8020u16 & 0x1000u16) == 0x0u16 &&
        (0x8040u16 & 0x1u16) == 0x0u16 &&
        (0x8040u16 & 0x2u16) == 0x0u16 &&
        (0x8040u16 & 0x4u16) == 0x0u16 &&
        (0x8040u16 & 0x8u16) == 0x0u16 &&
        (0x8040u16 & 0x10u16) == 0x0u16 &&
        (0x8040u16 & 0x20u16) == 0x0u16 &&
        (0x8040u16 & 0x40u16) == 0x40u16 &&
        (0x8040u16 & 0x80u16) == 0x0u16 &&
        (0x8040u16 & 0x100u16) == 0x0u16 &&
        (0x8040u16 & 0x200u16) == 0x0u16 &&
        (0x8040u16 & 0x400u16) == 0x0u16 &&
        (0x8040u16 & 0x800u16) == 0x0u16 &&
        (0x8040u16 & 0x1000u16) == 0x0u16 &&
        (0x8100u16 & 0x1u16) == 0x0u16 &&
        (0x8100u16 & 0x2u16) == 0x0u16 &&
        (0x8100u16 & 0x4u16) == 0x0u16 &&
        (0x8100u16 & 0x8u16) == 0x0u16 &&
        (0x8100u16 & 0x10u16) == 0x0u16 &&
        (0x8100u16 & 0x20u16) == 0x0u16 &&
        (0x8100u16 & 0x40u16) == 0x0u16 &&
        (0x8100u16 & 0x80u16) == 0x0u16 &&
        (0x8100u16 & 0x100u16) == 0x100u16 &&
        (0x8100u16 & 0x200u16) == 0x0u16 &&
        (0x8100u16 & 0x400u16) == 0x0u16 &&
        (0x8100u16 & 0x800u16) == 0x0u16 &&
        (0x8100u16 & 0x1000u16) == 0x0u16 &&
        (0x8200u16 & 0x1u16) == 0x0u16 &&
        (0x8200u16 & 0x2u16) == 0x0u16 &&
        (0x8200u16 & 0x4u16) == 0x0u16 &&
        (0x8200u16 & 0x8u16) == 0x0u16 &&
        (0x8200u16 & 0x10u16) == 0x0u16 &&
        (0x8200u16 & 0x20u16) == 0x0u16 &&
        (0x8200u16 & 0x40u16) == 0x0u16 &&
        (0x8200u16 & 0x80u16) == 0x0u16 &&
        (0x8200u16 & 0x100u16) == 0x0u16 &&
        (0x8200u16 & 0x200u16) == 0x200u16 &&
        (0x8200u16 & 0x400u16) == 0x0u16 &&
        (0x8200u16 & 0x800u16) == 0x0u16 &&
        (0x8200u16 & 0x1000u16) == 0x0u16 &&
        (0x8400u16 & 0x1u16) == 0x0u16 &&
        (0x8400u16 & 0x2u16) == 0x0u16 &&
        (0x8400u16 & 0x4u16) == 0x0u16 &&
        (0x8400u16 & 0x8u16) == 0x0u16 &&
        (0x8400u16 & 0x10u16) == 0x0u16 &&
        (0x8400u16 & 0x20u16) == 0x0u16 &&
        (0x8400u16 & 0x40u16) == 0x0u16 &&
        (0x8400u16 & 0x80u16) == 0x0u16 &&
        (0x8400u16 & 0x100u16) == 0x0u16 &&
        (0x8400u16 & 0x200u16) == 0x0u16 &&
        (0x8400u16 & 0x400u16) == 0x400u16 &&
        (0x8400u16 & 0x800u16) == 0x0u16 &&
        (0x8400u16 & 0x1000u16) == 0x0u16 &&
        (0x8800u16 & 0x1u16) == 0x0u16 &&
        (0x8800u16 & 0x2u16) == 0x0u16 &&
        (0x8800u16 & 0x4u16) == 0x0u16 &&
        (0x8800u16 & 0x8u16) == 0x0u16 &&
        (0x8800u16 & 0x10u16) == 0x0u16 &&
        (0x8800u16 & 0x20u16) == 0x0u16 &&
        (0x8800u16 & 0x40u16) == 0x0u16 &&
        (0x8800u16 & 0x80u16) == 0x0u16 &&
        (0x8800u16 & 0x100u16) == 0x0u16 &&
        (0x8800u16 & 0x200u16) == 0x0u16 &&
        (0x8800u16 & 0x400u16) == 0x0u16 &&
        (0x8800u16 & 0x800u16) == 0x800u16 &&
        (0x8800u16 & 0x1000u16) == 0x0u16,
{
    assert((0x8001u16 & 0x1u16) == 0x1u16 &&
        (0x8001u16 & 0x2u16) == 0x0u16 &&
        (0x8001u16 & 0x4u16) == 0x0u16 &&
        (0x8001u16 & 0x8u16) == 0x0u16 &&
        (0x8001u16 & 0x10u16) == 0x0u16 &&
        (0x8001u16 & 0x20u16) == 0x0u16 &&
        (0x8001u16 & 0x40u16) == 0x0u16 &&
        (0x8001u16 & 0x80u16) == 0x0u16 &&
        (0x8001u16 & 0x100u16) == 0x0u16 &&
        (0x8001u16 & 0x200u16) == 0x0u16 &&
        (0x8001u16 & 0x400u16) == 0x0u16 &&
        (0x8001u16 & 0x800u16) == 0x0u16 &&
        (0x8001u16 & 0x1000u16) == 0x0u16 &&
        (0x8004u16 & 0x1u16) == 0x0u16 &&
        (0x8004u16 & 0x2u16) == 0x0u16 &&
        (0x8004u16 & 0x4u16) == 0x4u16 &&
        (0x8004u16 & 0x8u16) == 0x0u16 &&
        (0x8004u16 & 0x10u16) == 0x0u16 &&
        (0x8004u16 & 0x20u16) == 0x0u16 &&
        (0x8004u16 & 0x40u16) == 0x0u16 &&
        (0x8004u16 & 0x80u16) == 0x0u16 &&
        (0x8004u16 & 0x100u16) == 0x0u16 &&
        (0x8004u16 & 0x200u16) == 0x0u16 &&
        (0x8004u16 & 0x400u16) == 0x0u16 &&
        (0x8004u16 & 0x800u16) == 0x0u16 &&
        (0x8004u16 & 0x1000u16) == 0x0u16 &&
        (0x8008u16 & 0x1u16) == 0x0u16 &&
        (0x8008u16 & 0x2u16) == 0x0u16 &&
        (0x8008u16 & 0x4u16) == 0x0u16 &&
        (0x8008u16 & 0x8u16) == 0x8u16 &&
        (0x8008u16 & 0x10u16) == 0x0u16 &&
        (0x8008u16 & 0x20u16) == 0x0u16 &&
        (0x8008u16 & 0x40u16) == 0x0u16 &&
        (0x8008u16 & 0x80u16) == 0x0u16 &&
        (0x8008u16 & 0x100u16) == 0x0u16 &&
        (0x8008u16 & 0x200u16) == 0x0u16 &&
        (0x8008u16 & 0x400u16) == 0x0u16 &&
        (0x8008u16 & 0x800u16) == 0x0u16 &&
        (0x8008u16 & 0x1000u16) == 0x0u16 &&
        (0x8010u16 & 0x1u16) == 0x0u16 &&
        (0x8010u16 & 0x2u16) == 0x0u16 &&
        (0x8010u16 & 0x4u16) == 0x0u16 &&
        (0x8010u16 & 0x8u16) == 0x0u16 &&
        (0x8010u16 & 0x10u16) == 0x10u16 &&
        (0x8010u16 & 0x20u16) == 0x0u16 &&
        (0x8010u16 & 0x40u16) == 0x0u16 &&
        (0x8010u16 & 0x80u16) == 0x0u16 &&
        (0x8010u16 & 0x100u16) == 0x0u16 &&
        (0x8010u16 & 0x200u16) == 0x0u16 &&
        (0x8010u16 & 0x400u16) == 0x0u16 &&
        (0x8010u16 & 0x800u16) == 0x0u16 &&
        (0x8010u16 & 0x1000u16) == 0x0u16 &&
        (0x8020u16 & 0x1u16) == 0x0u16 &&
        (0x8020u16 & 0x2u16) == 0x0u16 &&
        (0x8020u16 & 0x4u16) == 0x0u16 &&
        (0x8020u16 & 0x8u16) == 0x0u16 &&
        (0x8020u16 & 0x10u16) == 0x0u16 &&
        (0x8020u16 & 0x20u16) == 0x20u16 &&
        (0x8020u16 & 0x40u16) == 0x0u16 &&
        (0x8020u16 & 0x80u16) == 0x0u16 &&
        (0x8020u16 & 0x100u16) == 0x0u16 &&
        (0x8020u16 & 0x200u16) == 0x0u16 &&
        (0x8020u16 & 0x400u16) == 0x0u16 &&
        (0x8020u16 & 0x800u16) == 0x0u16 &&
        (0x8020u16 & 0x1000u16) == 0x0u16 &&
        (0x8040u16 & 0x1u16) == 0x0u16 &&
        (0x8040u16 & 0x2u16) == 0x0u16 &&
        (0x8040u16 & 0x4u16) == 0x0u16 &&
        (0x8040u16 & 0x8u16) == 0x0u16 &&
        (0x8040u16 & 0x10u16) == 0x0u16 &&
        (0x8040u16 & 0x20u16) == 0x0u16 &&
        (0x8040u16 & 0x40u16) == 0x40u16 &&
        (0x8040u16 & 0x80u16) == 0x0u16 &&
        (0x8040u16 & 0x100u16) == 0x0u16 &&
        (0x8040u16 & 0x200u16) == 0x0u16 &&
        (0x8040u16 & 0x400u16) == 0x0u16 &&
        (0x8040u16 & 0x800u16) == 0x0u16 &&
        (0x8040u16 & 0x1000u16) == 0x0u16 &&
        (0x8100u16 & 0x1u16) == 0x0u16 &&
        (0x8100u16 & 0x2u16) == 0x0u16 &&
        (0x8100u16 & 0x4u16) == 0x0u16 &&
        (0x8100u16 & 0x8u16) == 0x0u16 &&
        (0x8100u16 & 0x10u16) == 0x0u16 &&
        (0x8100u16 & 0x20u16) == 0x0u16 &&
        (0x8100u16 & 0x40u16) == 0x0u16 &&
        (0x8100u16 & 0x80u16) == 0x0u16 &&
        (0x8100u16 & 0x100u16) == 0x100u16 &&
        (0x8100u16 & 0x200u16) == 0x0u16 &&
        (0x8100u16 & 0x400u16) == 0x0u16 &&
        (0x8100u16 & 0x800u16) == 0x0u16 &&
        (0x8100u16 & 0x1000u16) == 0x0u16 &&
        (0x8200u16 & 0x1u16) == 0x0u16 &&
        (0x8200u16 & 0x2u16) == 0x0u16 &&
        (0x8200u16 & 0x4u16) == 0x0u16 &&
        (0x8200u16 & 0x8u16) == 0x0u16 &&
        (0x8200u16 & 0x10u16) == 0x0u16 &&
        (0x8200u16 & 0x20u16) == 0x0u16 &&
        (0x8200u16 & 0x40u16) == 0x0u16 &&
        (0x8200u16 & 0x80u16) == 0x0u16 &&
        (0x8200u16 & 0x100u16) == 0x0u16 &&
        (0x8200u16 & 0x200u16) == 0x200u16 &&
        (0x8200u16 & 0x400u16) == 0x0u16 &&
        (0x8200u16 & 0x800u16) == 0x0u16 &&
        (0x8200u16 & 0x1000u16) == 0x0u16 &&
        (0x8400u16 & 0x1u16) == 0x0u16 &&
        (0x8400u16 & 0x2u16) == 0x0u16 &&
        (0x8400u16 & 0x4u16) == 0x0u16 &&
        (0x8400u16 & 0x8u16) == 0x0u16 &&
        (0x8400u16 & 0x10u16) == 0x0u16 &&
        (0x8400u16 & 0x20u16) == 0x0u16 &&
        (0x8400u16 & 0x40u16) == 0x0u16 &&
        (0x8400u16 & 0x80u16) == 0x0u16 &&
        (0x8400u16 & 0x100u16) == 0x0u16 &&
        (0x8400u16 & 0x200u16) == 0x0u16 &&
        (0x8400u16 & 0x400u16) == 0x400u16 &&
        (0x8400u16 & 0x800u16) == 0x0u16 &&
        (0x8400u16 & 0x1000u16) == 0x0u16 &&
        (0x8800u16 & 0x1u16) == 0x0u16 &&
        (0x8800u16 & 0x2u16) == 0x0u16 &&
        (0x8800u16 & 0x4u16) == 0x0u16 &&
        (0x8800u16 & 0x8u16) == 0x0u16 &&
        (0x8800u16 & 0x10u16) == 0x0u16 &&
        (0x8800u16 & 0x20u16) == 0x0u16 &&
        (0x8800u16 & 0x40u16) == 0x0u16 &&
        (0x8800u16 & 0x80u16) == 0x0u16 &&
        (0x8800u16 & 0x100u16) == 0x0u16 &&
        (0x8800u16 & 0x200u16) == 0x0u16 &&
        (0x8800u16 & 0x400u16) == 0x0u16 &&
        (0x8800u16 & 0x800u16) == 0x800u16 &&
        (0x8800u16 & 0x1000u16) == 0x0u16) by (bit_vector);
}

/// A response that carries the bytes of a well-formed epic puts the page of that epic on top
/// of the client's stack: its frame is the epic's, and its story frames are the epic's
/// stories, in the order they were sent.
pub proof fn lemma_client_shows_sent_epic(
    stack: Seq<PageView>,
    reply: Response,
    e: EpicView,
    new: Seq<PageView>,
    r: Result<crate::interface::Shown, crate::interface::UserError>,
)
    requires
        reply is GetEpicOk || reply is EpicStatusUpdateOk || reply is StoryDoesNotExist
            || reply is AddedStoryOk || reply is DeletedStoryOk || reply is StoryStatusUpdateOk,
        response_data(reply).len() < 0x100_0000_0000_0000,
        epic_well_formed(e),
        epic_bytes_of(e, response_data(reply)),
        response_outcome(stack, response_encoding(reply), response_data(reply), new, r),
    ensures
        r is Ok,
        new.len() > 0,
        new.last() matches PageView::EpicDetail(frame, stories) && frame == epic_frame_of(e)
            && exists|ks: Seq<u32>|
            #[trigger] is_key_order(e.stories, ks) && stories == stories_in_order(e.stories, ks).map_values(
                |st: StoryView| story_frame_of(st),
            ),
{
    lemma_response_decode_encode(reply);
    lemma_page_kind_bits();
    let d = response_data(reply);
    let ks = choose|ks: Seq<u32>| #[trigger] is_key_order(e.stories, ks) && d == epic_bytes(e, ks);
    lemma_epic_page_reads_epic_bytes(e, ks);
}

/// A response that carries the records of a database puts the home page on top of the
/// client's stack, with one frame per epic of the database, in the order they were sent.
pub proof fn lemma_client_shows_sent_records(
    stack: Seq<PageView>,
    reply: Response,
    db: DbView,
    new: Seq<PageView>,
    r: Result<crate::interface::Shown, crate::interface::UserError>,
)
    requires
        reply is ClientAddedOk || reply is AddedEpicOk || reply is DeletedEpicOk || reply is EpicDoesNotExist,
        response_data(reply).len() < 0x100_0000_0000_0000,
        forall|k: u32| #[trigger] db.epics.contains_key(k) ==> byte_len(db.epics[k].name) <= u32::MAX
            && byte_len(db.epics[k].description) <= u32::MAX,
        db_bytes(db, response_data(reply)),
        response_outcome(stack, response_encoding(reply), response_data(reply), new, r),
    ensures
        r is Ok,
        new.len() > 0,
        new.last() matches PageView::Home(frames) && exists|ks: Seq<u32>|
            #[trigger] is_key_order(db.epics, ks) && frames == ks.map_values(|k: u32| epic_frame_of(db.epics[k])),
{
    lemma_response_decode_encode(reply);
    lemma_page_kind_bits();
    let d = response_data(reply);
    let ks = choose|ks: Seq<u32>| #[trigger] is_key_order(db.epics, ks) && d == epic_headers_bytes(db.epics, ks);
    lemma_home_page_reads_db_bytes(db.epics, ks);
}

/// An epic's status update reaches the client: once it has handled the server's answer, the
/// page on top of its stack is the epic's page, showing the status asked for.
pub proof fn lemma_epic_status_update_reaches_client(
    old: BrokerView,
    new: BrokerView,
    epic_id: u32,
    status: Status,
    reply: Response,
    persist: Persist,
    stack: Seq<PageView>,
    shown: Seq<PageView>,
    r: Result<crate::interface::Shown, crate::interface::UserError>,
)
    requires
        update_epic_status_outcome(old, new, epic_id, status, reply, persist),
        old.db.epics.contains_key(epic_id),
        epic_well_formed(old.db.epics[epic_id]),
        response_data(reply).len() < 0x100_0000_0000_0000,
        response_outcome(stack, response_encoding(reply), response_data(reply), shown, r),
    ensures
        r is Ok,
        shown.len() > 0,
        shown.last() matches PageView::EpicDetail(frame, _) && frame.id == old.db.epics[epic_id].id
            && frame.status == status,
{
    let e2 = EpicView { status, ..old.db.epics[epic_id] };
    assert(epic_well_formed(e2));
    lemma_client_shows_sent_epic(stack, reply, e2, shown, r);
}

/// A story's deletion reaches the client: once it has handled the server's answer, the page on
/// top of its stack is the page of the story's epic, and it lists no story with the deleted
/// story's id.
pub proof fn lemma_story_deletion_reaches_client(
    old: BrokerView,
    new: BrokerView,
    epic_id: u32,
    story_id: u32,
    reply: Response,
    persist: Persist,
    stack: Seq<PageView>,
    shown: Seq<PageView>,
    r: Result<crate::interface::Shown, crate::interface::UserError>,
)
    requires
        delete_story_outcome(old, new, epic_id, story_id, reply, persist),
        old.db.epics.contains_key(epic_id),
        old.db.epics[epic_id].stories.contains_key(story_id),
        epic_well_formed(old.db.epics[epic_id]),
        response_data(reply).len() < 0x100_0000_0000_0000,
        response_outcome(stack, response_encoding(reply), response_data(reply), shown, r),
    ensures
        r is Ok,
        shown.len() > 0,
        shown.last() matches PageView::EpicDetail(frame, stories) && frame.id == old.db.epics[epic_id].id
            && forall|j: int| 0 <= j < stories.len() ==> (#[trigger] stories[j]).id != story_id,
{
    let e = old.db.epics[epic_id];
    let e2 = EpicView { stories: e.stories.remove(story_id), ..e };
    assert(epic_well_formed(e2));
    lemma_client_shows_sent_epic(stack, reply, e2, shown, r);
    if let PageView::EpicDetail(frame, stories) = shown.last() {
        let ks = choose|ks: Seq<u32>|
            #[trigger] is_key_order(e2.stories, ks) && stories == stories_in_order(e2.stories, ks).map_values(
                |st: StoryView| story_frame_of(st),
            );
        assert forall|j: int| 0 <= j < stories.len() implies (#[trigger] stories[j]).id != story_id by {
            assert(ks.to_set().contains(ks[j]));
            assert(e2.stories.contains_key(ks[j]));
        }
    }
}

/// An epic's deletion reaches the client: once it has handled the server's answer, the page on
/// top of its stack is the home page, and, where each epic is filed under its own id, it lists
/// no epic with the deleted epic's id.
pub proof fn lemma_epic_deletion_reaches_client(
    old: BrokerView,
    new: BrokerView,
    epic_id: u32,
    reply: Response,
    persist: Persist,
    stack: Seq<PageView>,
    shown: Seq<PageView>,
    r: Result<crate::interface::Shown, crate::interface::UserError>,
)
    requires
        delete_epic_outcome(old, new, epic_id, reply, persist),
        old.db.epics.contains_key(epic_id),
        forall|k: u32| #[trigger] old.db.epics.contains_key(k) ==> byte_len(old.db.epics[k].name) <= u32::MAX
            && byte_len(old.db.epics[k].description) <= u32::MAX && old.db.epics[k].id == k,
        response_data(reply).len() < 0x100_0000_0000_0000,
        response_outcome(stack, response_encoding(reply), response_data(reply), shown, r),
    ensures
        r is Ok,
        shown.len() > 0,
        shown.last() matches PageView::Home(frames) && forall|j: int|
            0 <= j < frames.len() ==> (#[trigger] frames[j]).id != epic_id,
{
    lemma_client_shows_sent_records(stack, reply, new.db, shown, r);
    if let PageView::Home(frames) = shown.last() {
        let ks = choose|ks: Seq<u32>|
            #[trigger] is_key_order(new.db.epics, ks) && frames == ks.map_values(|k: u32| epic_frame_of(new.db.epics[k]));
        assert forall|j: int| 0 <= j < frames.len() implies (#[trigger] frames[j]).id != epic_id by {
            assert(ks.to_set().contains(ks[j]));
            assert(new.db.epics.contains_key(ks[j]));
        }
    }
}

} // verus!

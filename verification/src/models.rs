//! The data model of the database: epics, the stories they hold, and the database state that
//! maps epic ids to epics.
//!
//! Each epic and story has a fixed-size tag that encodes its id, the byte lengths of its name
//! and description, and its status; the bytes of an epic are its tag, name and description,
//! followed by those of each of its stories.

use std::collections::HashMap;
use vstd::prelude::*;
use vstd::utf8::*;
use vstd::std_specs::iter::IteratorSpec;
use crate::text::{text_with_number, lemma_decimal_roundtrip, lemma_parse_decimal, is_digit, parse_u32, parsed_u32, find_char, slice_chars, string_from_chars, chars_of, decimal_chars, str_byte_len, concat, decimal_text, utf8_bytes, string_from_utf8};
use crate::utils::{AsBytes, append_bytes, slice_to_vec, put_le_u32, le_bytes, le_u32_of, lemma_le_bytes_roundtrip, parse_4_bytes};

verus! {

broadcast use vstd::std_specs::hash::group_hash_axioms;

/// Represents the status of either an `Epic` or a `Story`.
#[derive(Debug, Clone, Copy, PartialEq, Eq, Structural)]
pub enum Status {
    Open,
    InProgress,
    Resolved,
    Closed,
}

/// The byte that represents a status on the wire and on disk.
pub open spec fn status_byte(s: Status) -> u8 {
    match s {
        Status::Open => 0,
        Status::InProgress => 1,
        Status::Resolved => 2,
        Status::Closed => 3,
    }
}

/// The status that a byte represents, if any.
pub open spec fn status_of_byte(b: u8) -> Option<Status> {
    if b == 0 {
        Some(Status::Open)
    } else if b == 1 {
        Some(Status::InProgress)
    } else if b == 2 {
        Some(Status::Resolved)
    } else if b == 3 {
        Some(Status::Closed)
    } else {
        None
    }
}

impl Status {
    /// The byte that represents `self`.
    pub fn as_byte(self) -> (b: u8)
        ensures
            b == status_byte(self),
    {
        match self {
            Status::Open => 0,
            Status::InProgress => 1,
            Status::Resolved => 2,
            Status::Closed => 3,
        }
    }

    /// Attempts to read a status from its byte, failing with a `ParseError` on a byte that
    /// represents no status.
    pub fn try_from_byte(value: u8) -> (r: Result<Status, DbError>)
        ensures
            match status_of_byte(value) {
                Some(s) => r == Ok::<Status, DbError>(s),
                None => r matches Err(DbError::ParseError(m)) && m@ == "unable to parse `Status` from byte "@
                    + decimal_chars(value as nat),
            },
    {
        match value {
            0 => Ok(Status::Open),
            1 => Ok(Status::InProgress),
            2 => Ok(Status::Resolved),
            3 => Ok(Status::Closed),
            _ => Err(DbError::ParseError(concat("unable to parse `Status` from byte ", decimal_text(value as u32).as_str()))),
        }
    }

    /// The text by which a status is shown to a user.
    pub fn display_name(&self) -> (s: &'static str)
        ensures
            s@ == status_name(*self),
    {
        match self {
            Status::Open => "OPEN",
            Status::InProgress => "IN PROGRESS",
            Status::Resolved => "RESOLVED",
            Status::Closed => "CLOSED",
        }
    }
}

/// The text by which a status is shown to a user.
pub open spec fn status_name(s: Status) -> Seq<char> {
    match s {
        Status::Open => "OPEN"@,
        Status::InProgress => "IN PROGRESS"@,
        Status::Resolved => "RESOLVED"@,
        Status::Closed => "CLOSED"@,
    }
}

/// A status byte read back gives the status it was made from.
pub proof fn lemma_status_byte_roundtrip(s: Status)
    ensures
        status_of_byte(status_byte(s)) == Some(s),
{
}

/// The errors of the database.
#[derive(Debug, Clone)]
pub enum DbError {
    FileLoadError(String),
    FileReadError(String),
    ParseError(String),
    FileWriteError(String),
    IdConflict(String),
    DoesNotExist(String),
    ConnectionError(String),
    InvalidUtf8Path(String),
}

impl DbError {
    /// The message the error carries.
    pub fn message(&self) -> (s: String)
        ensures
            s@ == self.message_spec(),
    {
        match self {
            DbError::FileLoadError(s) => s.clone(),
            DbError::FileReadError(s) => s.clone(),
            DbError::ParseError(s) => s.clone(),
            DbError::FileWriteError(s) => s.clone(),
            DbError::IdConflict(s) => s.clone(),
            DbError::DoesNotExist(s) => s.clone(),
            DbError::ConnectionError(s) => s.clone(),
            DbError::InvalidUtf8Path(s) => s.clone(),
        }
    }

    /// The message the error carries.
    pub open spec fn message_spec(&self) -> Seq<char> {
        match self {
            DbError::FileLoadError(s) => s@,
            DbError::FileReadError(s) => s@,
            DbError::ParseError(s) => s@,
            DbError::FileWriteError(s) => s@,
            DbError::IdConflict(s) => s@,
            DbError::DoesNotExist(s) => s@,
            DbError::ConnectionError(s) => s@,
            DbError::InvalidUtf8Path(s) => s@,
        }
    }
}

/// The byte length of the UTF-8 encoding of `s`.
pub open spec fn byte_len(s: Seq<char>) -> nat {
    utf8_bytes(s).len()
}

/// The tag of a story: its id, the id of its epic, the byte lengths of its name and
/// description (each as a little-endian `u32`), and its status byte.
pub open spec fn story_tag_bytes(s: StoryView) -> Seq<u8> {
    le_bytes(s.id) + le_bytes(s.epic_id) + le_bytes(byte_len(s.name) as u32) + le_bytes(
        byte_len(s.description) as u32,
    ) + seq![status_byte(s.status)]
}

/// The bytes of a story: its tag, then its name and description.
#[verifier::opaque]
pub open spec fn story_bytes(s: StoryView) -> Seq<u8> {
    story_tag_bytes(s) + utf8_bytes(s.name) + utf8_bytes(s.description)
}

/// The tag of an epic: its id, the byte lengths of its name and description (each as a
/// little-endian `u32`), and its status byte.
pub open spec fn epic_tag_bytes(e: EpicView) -> Seq<u8> {
    le_bytes(e.id) + le_bytes(byte_len(e.name) as u32) + le_bytes(byte_len(e.description) as u32)
        + seq![status_byte(e.status)]
}

/// The bytes of an epic's own record: its tag, then its name and description.
#[verifier::opaque]
pub open spec fn epic_header_bytes(e: EpicView) -> Seq<u8> {
    epic_tag_bytes(e) + utf8_bytes(e.name) + utf8_bytes(e.description)
}

/// The bytes of the stories of `stories` named by `ks`, in the order of `ks`.
pub open spec fn stories_bytes(stories: Map<u32, StoryView>, ks: Seq<u32>) -> Seq<u8>
    decreases ks.len(),
{
    if ks.len() == 0 {
        Seq::empty()
    } else {
        stories_bytes(stories, ks.drop_last()) + story_bytes(stories[ks.last()])
    }
}

/// `ks` lists each key of `m` exactly once.
pub open spec fn is_key_order<V>(m: Map<u32, V>, ks: Seq<u32>) -> bool {
    &&& ks.no_duplicates()
    &&& ks.to_set() == m.dom()
}

/// The bytes of an epic, with its stories in the order `ks`.
pub open spec fn epic_bytes(e: EpicView, ks: Seq<u32>) -> Seq<u8> {
    epic_header_bytes(e) + stories_bytes(e.stories, ks)
}

/// What a story holds.
pub struct StoryView {
    pub id: u32,
    pub epic_id: u32,
    pub name: Seq<char>,
    pub description: Seq<char>,
    pub status: Status,
}

/// A single story.
#[derive(Debug, PartialEq, Clone)]
pub struct Story {
    /// The id of the story
    id: u32,
    /// The id of the epic that holds the story
    epic_id: u32,
    /// The name of the story
    name: String,
    /// The description of the story
    description: String,
    /// The current status of the story
    status: Status,
}

impl View for Story {
    type V = StoryView;

    closed spec fn view(&self) -> StoryView {
        StoryView {
            id: self.id,
            epic_id: self.epic_id,
            name: self.name@,
            description: self.description@,
            status: self.status,
        }
    }
}

impl Story {
    /// Creates a story from its parts.
    pub fn new(id: u32, epic_id: u32, name: String, description: String, status: Status) -> (s:
        Story)
        ensures
            s@ == (StoryView { id, epic_id, name: name@, description: description@, status }),
    {
        Story { id, epic_id, name, description, status }
    }

    /// Returns the id of `self`.
    pub fn id(&self) -> (r: u32)
        ensures
            r == self@.id,
    {
        self.id
    }

    /// Returns the id of the epic that holds `self`.
    pub fn epic_id(&self) -> (r: u32)
        ensures
            r == self@.epic_id,
    {
        self.epic_id
    }

    /// Returns the name of `self`.
    pub fn name(&self) -> (r: &String)
        ensures
            r@ == self@.name,
    {
        &self.name
    }

    /// Returns the description of `self`.
    pub fn description(&self) -> (r: &String)
        ensures
            r@ == self@.description,
    {
        &self.description
    }

    /// Returns the status of `self`.
    pub fn status(&self) -> (r: Status)
        ensures
            r == self@.status,
    {
        self.status
    }

    /// Sets the status of `self`.
    fn set_status(&mut self, status: Status)
        ensures
            final(self)@ == (StoryView { status, ..old(self)@ }),
    {
        self.status = status;
    }
}

impl AsBytes for Story {
    /// Returns the story's tag followed by its name and description.
    fn as_bytes(&self) -> (bytes: Vec<u8>)
        ensures
            bytes@ == story_bytes(self@),
    {
        let tag = self.encode();
        let mut bytes: Vec<u8> = Vec::new();
        append_bytes(&mut bytes, tag.as_slice());
        append_bytes(&mut bytes, self.name.as_str().as_bytes());
        append_bytes(&mut bytes, self.description.as_str().as_bytes());
        proof {
            reveal(story_bytes);
        }
        bytes
    }
}

/// Marker trait for types that represent tag encodings.
pub trait TagEncoding {}

/// Marker trait for types that represent tag decodings.
pub trait TagDecoding {}

/// An interface for types that are serialized behind a fixed-size tag.
pub trait BytesEncode {
    /// The type of tag encoding for the implementing type.
    type Tag: TagEncoding;

    /// The type that `Self::Tag` gets decoded into.
    type DecodedTag: TagDecoding;

    /// Encodes the fixed-size part of `self` into a tag.
    fn encode(&self) -> Self::Tag;

    /// Decodes a tag into its fields.
    fn decode(tag: &Self::Tag) -> Self::DecodedTag;
}

/// The encoded tag of an `Epic`: its id, the byte lengths of its name and description, and
/// its status byte.
pub type EpicEncodeTag = [u8; 13];

/// The decoded tag of an `Epic`: its id, the byte lengths of its name and description, and
/// its status byte.
pub type EpicDecodeTag = (u32, u32, u32, u8);

/// The encoded tag of a `Story`: its id, the id of its epic, the byte lengths of its name and
/// description, and its status byte.
pub type StoryEncodeTag = [u8; 17];

/// The decoded tag of a `Story`: its id, the id of its epic, the byte lengths of its name and
/// description, and its status byte.
pub type StoryDecodeTag = (u32, u32, u32, u32, u8);

impl TagEncoding for EpicEncodeTag {}

impl TagDecoding for EpicDecodeTag {}

impl TagEncoding for StoryEncodeTag {}

impl TagDecoding for StoryDecodeTag {}

impl BytesEncode for Story {
    type Tag = StoryEncodeTag;

    type DecodedTag = StoryDecodeTag;

    /// Encodes the tag of `self`.
    fn encode(&self) -> (tag: StoryEncodeTag)
        ensures
            tag@ == story_tag_bytes(self@),
    {
        let mut tag = [0u8; 17];
        put_le_u32(&mut tag, 0, self.id);
        put_le_u32(&mut tag, 4, self.epic_id);
        let name_len = str_byte_len(self.name.as_str());
        put_le_u32(&mut tag, 8, name_len as u32);
        let description_len = str_byte_len(self.description.as_str());
        put_le_u32(&mut tag, 12, description_len as u32);
        tag[16] = self.status.as_byte();
        assert(tag@ =~= story_tag_bytes(self@));
        tag
    }

    /// Decodes a story tag into the story's id, the id of its epic, the byte lengths of its
    /// name and description, and its status byte.
    fn decode(tag: &StoryEncodeTag) -> (r: StoryDecodeTag)
        ensures
            r.0 == le_u32_of(tag@),
            r.1 == le_u32_of(tag@.subrange(4, 8)),
            r.2 == le_u32_of(tag@.subrange(8, 12)),
            r.3 == le_u32_of(tag@.subrange(12, 16)),
            r.4 == tag@[16],
    {
        let id = parse_4_bytes(&tag[0..4]);
        let epic_id = parse_4_bytes(&tag[4..8]);
        let name_len = parse_4_bytes(&tag[8..12]);
        let description_len = parse_4_bytes(&tag[12..16]);
        (id, epic_id, name_len, description_len, tag[16])
    }
}

/// The views of the stories of a story map.
pub open spec fn story_views(m: Map<u32, Story>) -> Map<u32, StoryView> {
    m.map_values(|s: Story| s@)
}

/// What an epic holds.
pub struct EpicView {
    pub id: u32,
    pub name: Seq<char>,
    pub description: Seq<char>,
    pub status: Status,
    pub file_path: Seq<char>,
    pub stories: Map<u32, StoryView>,
}

/// A single epic and the stories it holds.
#[derive(Debug, PartialEq)]
pub struct Epic {
    /// The unique identifier of the epic
    id: u32,
    /// The name of the epic
    name: String,
    /// The description of the epic
    description: String,
    /// The current status of the epic
    status: Status,
    /// The path of the file the epic is stored in
    file_path: String,
    /// The stories of the epic, by story id
    stories: HashMap<u32, Story>,
}

impl View for Epic {
    type V = EpicView;

    closed spec fn view(&self) -> EpicView {
        EpicView {
            id: self.id,
            name: self.name@,
            description: self.description@,
            status: self.status,
            file_path: self.file_path@,
            stories: story_views(self.stories@),
        }
    }
}

impl Epic {
    /// Creates an epic from its parts.
    pub fn new(
        id: u32,
        name: String,
        description: String,
        status: Status,
        file_path: String,
        stories: HashMap<u32, Story>,
    ) -> (e: Epic)
        ensures
            e@ == (EpicView {
                id,
                name: name@,
                description: description@,
                status,
                file_path: file_path@,
                stories: story_views(stories@),
            }),
    {
        Epic { id, name, description, status, file_path, stories }
    }

    /// Adds `story` to the epic, unless the epic already holds a story with the same id, in
    /// which case it fails with `IdConflict` and changes nothing.
    pub fn add_story(&mut self, story: Story) -> (r: Result<(), DbError>)
        ensures
            old(self)@.stories.contains_key(story@.id) ==> {
                &&& r matches Err(DbError::IdConflict(m)) && m@ == "a story with id: "@ + decimal_chars(
                    story@.id as nat,
                ) + " already exists for this epic"@
                &&& final(self)@ == old(self)@
            },
            !old(self)@.stories.contains_key(story@.id) ==> {
                &&& r is Ok
                &&& final(self)@ == (EpicView {
                    stories: old(self)@.stories.insert(story@.id, story@),
                    ..old(self)@
                })
            },
    {
        if self.stories.contains_key(&story.id) {
            Err(DbError::IdConflict(text_with_number(
                "a story with id: ",
                story.id,
                " already exists for this epic",
            )))
        } else {
            self.stories.insert(story.id, story);
            proof {
                assert(story_views(self.stories@) =~= story_views(old(self).stories@).insert(story@.id, story@));
            }
            Ok(())
        }
    }

    /// Updates the status of the epic.
    pub fn update_status(&mut self, status: Status)
        ensures
            final(self)@ == (EpicView { status, ..old(self)@ }),
    {
        self.status = status;
    }

    /// Deletes the story with `story_id`, returning its id, or fails with `DoesNotExist` and
    /// changes nothing when the epic holds no such story.
    pub fn delete_story(&mut self, story_id: u32) -> (r: Result<u32, DbError>)
        ensures
            old(self)@.stories.contains_key(story_id) ==> {
                &&& r == Ok::<u32, DbError>(story_id)
                &&& final(self)@ == (EpicView {
                    stories: old(self)@.stories.remove(story_id),
                    ..old(self)@
                })
            },
            !old(self)@.stories.contains_key(story_id) ==> {
                &&& r matches Err(DbError::DoesNotExist(m)) && m@ == "no story with id: "@
                    + decimal_chars(story_id as nat) + " present"@
                &&& final(self)@ == old(self)@
            },
    {
        if !self.stories.contains_key(&story_id) {
            Err(DbError::DoesNotExist(text_with_number("no story with id: ", story_id, " present")))
        } else {
            self.stories.remove(&story_id);
            proof {
                assert(story_views(self.stories@) =~= story_views(old(self).stories@).remove(story_id));
            }
            Ok(story_id)
        }
    }

    /// Sets the status of the story with `story_id`, or fails with `DoesNotExist` and changes
    /// nothing when the epic holds no such story.
    pub fn update_story_status(&mut self, story_id: u32, status: Status) -> (r: Result<(), DbError>)
        ensures
            old(self)@.stories.contains_key(story_id) ==> {
                &&& r is Ok
                &&& final(self)@ == (EpicView {
                    stories: old(self)@.stories.insert(
                        story_id,
                        StoryView { status, ..old(self)@.stories[story_id] },
                    ),
                    ..old(self)@
                })
            },
            !old(self)@.stories.contains_key(story_id) ==> {
                &&& r matches Err(DbError::DoesNotExist(m)) && m@
                    == "unable to update story status for id: "@ + decimal_chars(story_id as nat)
                &&& final(self)@ == old(self)@
            },
    {
        match self.stories.remove(&story_id) {
            None => {
                proof {
                    assert(self.stories@ =~= old(self).stories@);
                }
                Err(DbError::DoesNotExist(concat("unable to update story status for id: ", decimal_text(story_id).as_str())))
            },
            Some(mut story) => {
                story.set_status(status);
                self.stories.insert(story_id, story);
                proof {
                    assert(story_views(self.stories@) =~= story_views(old(self).stories@).insert(
                        story_id,
                        StoryView { status, ..old(self)@.stories[story_id] },
                    ));
                }
                Ok(())
            },
        }
    }

    /// Returns the story with `story_id`, if the epic holds one.
    pub fn get_story(&self, story_id: u32) -> (r: Option<&Story>)
        ensures
            match r {
                Some(s) => self@.stories.contains_key(story_id) && s@ == self@.stories[story_id],
                None => !self@.stories.contains_key(story_id),
            },
    {
        self.stories.get(&story_id)
    }

    /// Returns the id of `self`.
    pub fn id(&self) -> (r: u32)
        ensures
            r == self@.id,
    {
        self.id
    }

    /// Returns the name of `self`.
    pub fn name(&self) -> (r: &String)
        ensures
            r@ == self@.name,
    {
        &self.name
    }

    /// Returns the description of `self`.
    pub fn description(&self) -> (r: &String)
        ensures
            r@ == self@.description,
    {
        &self.description
    }

    /// Returns the status of `self`.
    pub fn status(&self) -> (r: Status)
        ensures
            r == self@.status,
    {
        self.status
    }

    /// Returns the path of the file that `self` is stored in.
    pub fn file_path(&self) -> (r: &String)
        ensures
            r@ == self@.file_path,
    {
        &self.file_path
    }
}

impl BytesEncode for Epic {
    type Tag = EpicEncodeTag;

    type DecodedTag = EpicDecodeTag;

    /// Encodes the tag of `self`.
    fn encode(&self) -> (tag: EpicEncodeTag)
        ensures
            tag@ == epic_tag_bytes(self@),
    {
        let mut tag = [0u8; 13];
        put_le_u32(&mut tag, 0, self.id);
        let name_len = str_byte_len(self.name.as_str());
        put_le_u32(&mut tag, 4, name_len as u32);
        let description_len = str_byte_len(self.description.as_str());
        put_le_u32(&mut tag, 8, description_len as u32);
        tag[12] = self.status.as_byte();
        assert(tag@.subrange(0, 4) =~= le_bytes(self.id));
        assert(tag@.subrange(4, 8) =~= le_bytes(name_len as u32));
        assert(tag@.subrange(8, 12) =~= le_bytes(description_len as u32));
        assert(tag@ =~= tag@.subrange(0, 4) + tag@.subrange(4, 8) + tag@.subrange(8, 12) + seq![tag@[12]]);
        assert(tag@ =~= epic_tag_bytes(self@));
        tag
    }

    /// Decodes an epic tag into the epic's id, the byte lengths of its name and description,
    /// and its status byte.
    fn decode(tag: &EpicEncodeTag) -> (r: EpicDecodeTag)
        ensures
            r.0 == le_u32_of(tag@),
            r.1 == le_u32_of(tag@.subrange(4, 8)),
            r.2 == le_u32_of(tag@.subrange(8, 12)),
            r.3 == tag@[12],
    {
        let id = parse_4_bytes(&tag[0..4]);
        let name_len = parse_4_bytes(&tag[4..8]);
        let description_len = parse_4_bytes(&tag[8..12]);
        (id, name_len, description_len, tag[12])
    }
}

/// The keys of a sequence of map entries, in order.
pub open spec fn entry_keys<V>(s: Seq<(&u32, &V)>) -> Seq<u32> {
    s.map_values(|p: (&u32, &V)| *p.0)
}

/// A sequence of the entries of `m`, each once, lists each key of `m` exactly once.
pub proof fn lemma_entry_keys_order<V>(m: Map<u32, V>, s: Seq<(&u32, &V)>)
    requires
        s.no_duplicates(),
        forall|i: int| 0 <= i < s.len() ==> m.contains_key(*s[i].0) && m[*s[i].0] == *s[i].1,
        forall|k: u32| #[trigger] m.contains_key(k) ==> s.contains((&k, &m[k])),
    ensures
        is_key_order(m, entry_keys(s)),
{
    let ks = entry_keys(s);
    assert forall|i: int, j: int| 0 <= i < ks.len() && 0 <= j < ks.len() && i != j implies ks[i]
        != ks[j] by {
        if ks[i] == ks[j] {
            assert(*s[i].1 == m[ks[i]]);
            assert(*s[j].1 == m[ks[j]]);
            assert(s[i] == s[j]);
        }
    }
    assert forall|k: u32| ks.to_set().contains(k) <==> m.dom().contains(k) by {
        if m.dom().contains(k) {
            assert(s.contains((&k, &m[k])));
            let i = choose|i: int| 0 <= i < s.len() && s[i] == (&k, &m[k]);
            assert(ks[i] == k);
        }
        if ks.to_set().contains(k) {
            let i = choose|i: int| 0 <= i < ks.len() && ks[i] == k;
            assert(m.contains_key(*s[i].0));
        }
    }
    assert(ks.to_set() =~= m.dom());
}

impl AsBytes for Epic {
    /// Returns the epic's tag, name and description, followed by the bytes of each of its
    /// stories, in the order in which the story map yields them.
    fn as_bytes(&self) -> (bytes: Vec<u8>)
        ensures
            exists|ks: Seq<u32>| is_key_order(self@.stories, ks) && bytes@ == epic_bytes(self@, ks),
    {
        let tag = self.encode();
        let mut bytes: Vec<u8> = Vec::new();
        append_bytes(&mut bytes, tag.as_slice());
        append_bytes(&mut bytes, self.name.as_str().as_bytes());
        append_bytes(&mut bytes, self.description.as_str().as_bytes());
        proof {
            reveal(epic_header_bytes);
        }
        let ghost entries = vstd::std_specs::hash::spec_hash_map_iter(&self.stories).remaining();
        let ghost mut ks: Seq<u32> = Seq::empty();
        for pair in it: self.stories.iter()
            invariant
                it.seq() == entries,
                ks.len() == it.index(),
                forall|i: int| 0 <= i < ks.len() ==> ks[i] == *entries[i].0,
                forall|i: int|
                    0 <= i < entries.len() ==> self.stories@.contains_key(*entries[i].0)
                        && self.stories@[*entries[i].0] == *entries[i].1,
                bytes@ == epic_header_bytes(self@) + stories_bytes(self@.stories, ks),
        {
            let story = pair.1;
            let story_tag = story.encode();
            let ghost before = bytes@;
            append_bytes(&mut bytes, story_tag.as_slice());
            append_bytes(&mut bytes, story.name.as_str().as_bytes());
            append_bytes(&mut bytes, story.description.as_str().as_bytes());
            proof {
                reveal(story_bytes);
                let k = *pair.0;
                assert(self@.stories[k] == story@);
                let ks2 = ks.push(k);
                assert(ks2.drop_last() =~= ks);
                assert(stories_bytes(self@.stories, ks2) == stories_bytes(self@.stories, ks) + story_bytes(story@));
                assert(bytes@ =~= before + story_bytes(story@));
                ks = ks2;
            }
        }
        proof {
            assert(ks.len() == entries.len());
            assert(ks =~= entry_keys(entries));
            assert(entries.no_duplicates());
            assert(forall|k: u32| #[trigger] self.stories@.contains_key(k) ==> entries.contains((&k, &self.stories@[k])));
            lemma_entry_keys_order(self.stories@, entries);
            assert(self@.stories.dom() =~= self.stories@.dom());
            assert(is_key_order(self@.stories, ks));
            assert(bytes@ == epic_bytes(self@, ks));
        }
        bytes
    }
}

/// The path of `component` taken from the directory `base`, with `/` as the separator: a
/// component that starts with `/` stands on its own, an empty base adds nothing, and a base
/// that ends in `/` gets no second separator.
pub open spec fn path_join(base: Seq<char>, component: Seq<char>) -> Seq<char> {
    if component.len() > 0 && component[0] == '/' {
        component
    } else if base.len() == 0 {
        component
    } else if base.last() == '/' {
        base + component
    } else {
        base + seq!['/'] + component
    }
}

/// Returns the path of `component` taken from the directory `base` (see `path_join`).
pub fn join_path(base: &str, component: &str) -> (p: String)
    ensures
        p@ == path_join(base@, component@),
{
    let base_chars = chars_of(base);
    let component_chars = chars_of(component);
    if component_chars.len() > 0 && component_chars[0] == '/' {
        component.to_owned()
    } else if base_chars.len() == 0 {
        component.to_owned()
    } else if base_chars[base_chars.len() - 1] == '/' {
        concat(base, component)
    } else {
        let with_separator = concat(base, "/");
        proof {
            reveal_strlit("/");
        }
        concat(with_separator.as_str(), component)
    }
}

/// The name of the file of the epic with `id`.
pub open spec fn epic_file_name(id: u32) -> Seq<char> {
    "epic"@ + decimal_chars(id as nat) + ".txt"@
}

/// The path of the file of the epic with `id`, in the epic directory of a database.
pub open spec fn epic_file_path(db_dir: Seq<char>, epic_dir: Seq<char>, id: u32) -> Seq<char> {
    path_join(path_join(db_dir, epic_dir), epic_file_name(id))
}

/// The views of the epics of an epic map.
pub open spec fn epic_views(m: Map<u32, Epic>) -> Map<u32, EpicView> {
    m.map_values(|e: Epic| e@)
}

/// Replacing an epic in a map replaces its view in the map of views.
pub broadcast proof fn lemma_epic_views_insert(m: Map<u32, Epic>, k: u32, e: Epic)
    ensures
        #[trigger] epic_views(m.insert(k, e)) == epic_views(m).insert(k, e@),
{
    assert(epic_views(m.insert(k, e)) =~= epic_views(m).insert(k, e@));
}

/// Putting back the value a map already holds leaves the map as it was.
pub broadcast proof fn lemma_map_insert_same<K, V>(m: Map<K, V>, k: K)
    requires
        m.contains_key(k),
    ensures
        #[trigger] m.insert(k, m[k]) == m,
{
    assert(m.insert(k, m[k]) =~= m);
}

/// What a database state holds.
pub struct DbView {
    pub epics: Map<u32, EpicView>,
    pub db_dir: Seq<char>,
    pub db_file_name: Seq<char>,
    pub epic_dir: Seq<char>,
    pub file_path: Seq<char>,
    pub last_unique_id: u32,
}

/// The state of the database: its epics by id, where it is stored, and the last id it handed
/// out to an epic or a story.
#[derive(Debug, PartialEq)]
pub struct DbState {
    /// The epics of the database, by epic id
    epics: HashMap<u32, Epic>,
    /// The directory of the database
    db_dir: String,
    /// The name of the database file, e.g. db.txt
    db_file_name: String,
    /// The directory of the epic files, inside the database directory
    epic_dir: String,
    /// The path of the database file
    file_path: String,
    /// The last id handed out to an epic or a story
    last_unique_id: u32,
}

impl View for DbState {
    type V = DbView;

    closed spec fn view(&self) -> DbView {
        DbView {
            epics: epic_views(self.epics@),
            db_dir: self.db_dir@,
            db_file_name: self.db_file_name@,
            epic_dir: self.epic_dir@,
            file_path: self.file_path@,
            last_unique_id: self.last_unique_id,
        }
    }
}

impl DbState {
    /// Creates an empty database stored in the file `db_file_name` of `db_dir`, with its epic
    /// files in `epic_dir`.
    pub fn new(db_dir: String, db_file_name: String, epic_dir: String) -> (d: DbState)
        ensures
            d@ == (DbView {
                epics: Map::empty(),
                db_dir: db_dir@,
                db_file_name: db_file_name@,
                epic_dir: epic_dir@,
                file_path: path_join(db_dir@, db_file_name@),
                last_unique_id: 0,
            }),
    {
        let file_path = join_path(db_dir.as_str(), db_file_name.as_str());
        let d = DbState {
            epics: HashMap::new(),
            db_dir,
            db_file_name,
            epic_dir,
            file_path,
            last_unique_id: 0,
        };
        proof {
            assert(epic_views(d.epics@) =~= Map::empty());
        }
        d
    }

    /// Removes the epic with `id`, returning it, or fails with `DoesNotExist` and changes
    /// nothing when there is no such epic.
    pub fn delete_epic(&mut self, id: u32) -> (r: Result<Epic, DbError>)
        ensures
            match r {
                Ok(e) => {
                    &&& old(self)@.epics.contains_key(id)
                    &&& e@ == old(self)@.epics[id]
                    &&& final(self)@ == (DbView { epics: old(self)@.epics.remove(id), ..old(self)@ })
                },
                Err(e) => {
                    &&& e matches DbError::DoesNotExist(m) && m@ == "no epic with id: "@
                        + decimal_chars(id as nat)
                    &&& !old(self)@.epics.contains_key(id)
                    &&& final(self)@ == old(self)@
                },
            },
    {
        match self.epics.remove(&id) {
            Some(e) => {
                proof {
                    assert(epic_views(self.epics@) =~= epic_views(old(self).epics@).remove(id));
                }
                Ok(e)
            },
            None => {
                proof {
                    assert(self.epics@ =~= old(self).epics@);
                }
                Err(DbError::DoesNotExist(concat("no epic with id: ", decimal_text(id).as_str())))
            },
        }
    }

    /// Creates a new open epic with no stories, under the next unique id, and returns that id.
    pub fn add_epic(&mut self, name: String, description: String) -> (id: u32)
        requires
            old(self)@.last_unique_id < u32::MAX,
        ensures
            id == old(self)@.last_unique_id + 1,
            final(self)@ == (DbView {
                epics: old(self)@.epics.insert(
                    id,
                    EpicView {
                        id,
                        name: name@,
                        description: description@,
                        status: Status::Open,
                        file_path: epic_file_path(old(self)@.db_dir, old(self)@.epic_dir, id),
                        stories: Map::empty(),
                    },
                ),
                last_unique_id: id,
                ..old(self)@
            }),
    {
        self.last_unique_id = self.last_unique_id + 1;
        let id = self.last_unique_id;
        let epic_fname = concat(concat("epic", decimal_text(id).as_str()).as_str(), ".txt");
        let epic_dir_path = join_path(self.db_dir.as_str(), self.epic_dir.as_str());
        let epic_pathname = join_path(epic_dir_path.as_str(), epic_fname.as_str());
        let stories: HashMap<u32, Story> = HashMap::new();
        let epic = Epic::new(id, name, description, Status::Open, epic_pathname, stories);
        self.epics.insert(id, epic);
        proof {
            reveal_strlit("epic");
            reveal_strlit(".txt");
            assert(story_views(stories@) =~= Map::empty());
            assert(epic_views(self.epics@) =~= epic_views(old(self).epics@).insert(id, epic@));
        }
        id
    }

    /// Returns the epic with `id`, if there is one, for changing it in place.
    pub fn get_epic_mut(&mut self, id: u32) -> (r: Option<&mut Epic>)
        ensures
            match r {
                Some(e) => {
                    &&& old(self)@.epics.contains_key(id)
                    &&& e@ == old(self)@.epics[id]
                    &&& final(self)@ == (DbView {
                        epics: old(self)@.epics.insert(id, final(e)@),
                        ..old(self)@
                    })
                },
                None => !old(self)@.epics.contains_key(id) && final(self)@ == old(self)@,
            },
    {
        broadcast use lemma_epic_views_insert;

        if !self.epics.contains_key(&id) {
            return None;
        }
        match self.epics.entry(id) {
            std::collections::hash_map::Entry::Occupied(o) => Some(o.into_mut()),
            std::collections::hash_map::Entry::Vacant(_) => None,
        }
    }

    /// Returns whether the database holds an epic with `id`.
    pub fn contains_epic(&self, id: u32) -> (r: bool)
        ensures
            r == self@.epics.contains_key(id),
    {
        self.epics.contains_key(&id)
    }

    /// Returns the epic with `id`, if there is one.
    pub fn get_epic(&self, id: u32) -> (r: Option<&Epic>)
        ensures
            match r {
                Some(e) => self@.epics.contains_key(id) && e@ == self@.epics[id],
                None => !self@.epics.contains_key(id),
            },
    {
        self.epics.get(&id)
    }

    /// Adds a new open story with `story_name` and `story_description` to the epic with
    /// `epic_id`, under the next unique id.
    ///
    /// Fails with `DoesNotExist`, changing nothing, when there is no such epic. Otherwise the
    /// next unique id is taken even if the epic already holds a story with that id, in which
    /// case the epic is left as it was and the result is `IdConflict`.
    pub fn add_story(&mut self, epic_id: u32, story_name: String, story_description: String) -> (r:
        Result<(), DbError>)
        requires
            old(self)@.epics.contains_key(epic_id) ==> old(self)@.last_unique_id < u32::MAX,
        ensures
            !old(self)@.epics.contains_key(epic_id) ==> {
                &&& r matches Err(DbError::DoesNotExist(m)) && m@ == "no epic with id: {epic_id}"@
                &&& final(self)@ == old(self)@
            },
            old(self)@.epics.contains_key(epic_id) ==> {
                let id = (old(self)@.last_unique_id + 1) as u32;
                let e = old(self)@.epics[epic_id];
                if e.stories.contains_key(id) {
                    &&& r matches Err(DbError::IdConflict(m)) && m@ == "a story with id: "@
                        + decimal_chars(id as nat) + " already exists for this epic"@
                    &&& final(self)@ == (DbView { last_unique_id: id, ..old(self)@ })
                } else {
                    &&& r is Ok
                    &&& final(self)@ == (DbView {
                        epics: old(self)@.epics.insert(
                            epic_id,
                            EpicView {
                                stories: e.stories.insert(
                                    id,
                                    StoryView {
                                        id,
                                        epic_id,
                                        name: story_name@,
                                        description: story_description@,
                                        status: Status::Open,
                                    },
                                ),
                                ..e
                            },
                        ),
                        last_unique_id: id,
                        ..old(self)@
                    })
                }
            },
    {
        broadcast use lemma_map_insert_same;

        if !self.epics.contains_key(&epic_id) {
            return Err(DbError::DoesNotExist("no epic with id: {epic_id}".to_owned()));
        }
        self.last_unique_id = self.last_unique_id + 1;
        let new_story = Story::new(
            self.last_unique_id,
            epic_id,
            story_name,
            story_description,
            Status::Open,
        );
        let epic = self.get_epic_mut(epic_id);
        match epic {
            Some(e) => e.add_story(new_story),
            None => Err(DbError::DoesNotExist("no epic with id: {epic_id}".to_owned())),
        }
    }

    /// Deletes the story with `story_id` from the epic with `epic_id`, returning the story's
    /// id; fails with `DoesNotExist`, changing nothing, when there is no such epic or story.
    pub fn delete_story(&mut self, epic_id: u32, story_id: u32) -> (r: Result<u32, DbError>)
        ensures
            (old(self)@.epics.contains_key(epic_id) && old(self)@.epics[epic_id].stories.contains_key(
                story_id,
            )) ==> {
                &&& r == Ok::<u32, DbError>(story_id)
                &&& final(self)@ == (DbView {
                    epics: old(self)@.epics.insert(
                        epic_id,
                        EpicView {
                            stories: old(self)@.epics[epic_id].stories.remove(story_id),
                            ..old(self)@.epics[epic_id]
                        },
                    ),
                    ..old(self)@
                })
            },
            !old(self)@.epics.contains_key(epic_id) ==> {
                &&& r matches Err(DbError::DoesNotExist(m)) && m@
                    == "unable to delete story, no epic with id: "@ + decimal_chars(epic_id as nat)
                &&& final(self)@ == old(self)@
            },
            (old(self)@.epics.contains_key(epic_id) && !old(self)@.epics[epic_id].stories.contains_key(
                story_id,
            )) ==> {
                &&& r matches Err(DbError::DoesNotExist(m)) && m@ == "no story with id: "@
                    + decimal_chars(story_id as nat) + " present"@
                &&& final(self)@ == old(self)@
            },
    {
        broadcast use lemma_map_insert_same;

        if !self.epics.contains_key(&epic_id) {
            return Err(DbError::DoesNotExist(concat("unable to delete story, no epic with id: ", decimal_text(epic_id).as_str())));
        }
        let epic = self.get_epic_mut(epic_id);
        match epic {
            Some(e) => match e.delete_story(story_id) {
                Ok(_) => Ok(story_id),
                Err(err) => Err(err),
            },
            None => Err(DbError::DoesNotExist(concat("unable to delete story, no epic with id: ", decimal_text(epic_id).as_str()))),
        }
    }

    /// Returns the path of the database file.
    pub fn file_path(&self) -> (r: &String)
        ensures
            r@ == self@.file_path,
    {
        &self.file_path
    }

    /// Returns the last id handed out to an epic or a story.
    pub fn last_unique_id(&self) -> (r: u32)
        ensures
            r == self@.last_unique_id,
    {
        self.last_unique_id
    }
}

/// The bytes of the records (tag, name, description, without stories) of the epics of
/// `epics` named by `ks`, in the order of `ks`.
pub open spec fn epic_headers_bytes(epics: Map<u32, EpicView>, ks: Seq<u32>) -> Seq<u8>
    decreases ks.len(),
{
    if ks.len() == 0 {
        Seq::empty()
    } else {
        epic_headers_bytes(epics, ks.drop_last()) + epic_header_bytes(epics[ks.last()])
    }
}

/// The line of the database file that names the file of the epic with `id`.
pub open spec fn db_line(id: u32, path: Seq<char>) -> Seq<char> {
    decimal_chars(id as nat) + ","@ + path + "\n"@
}

/// The lines of the database file for the epics of `epics` named by `ks`, in that order.
pub open spec fn db_text(epics: Map<u32, EpicView>, ks: Seq<u32>) -> Seq<char>
    decreases ks.len(),
{
    if ks.len() == 0 {
        Seq::empty()
    } else {
        db_text(epics, ks.drop_last()) + db_line(ks.last(), epics[ks.last()].file_path)
    }
}

/// The position of the first `c` in `s`, or the length of `s` when `c` does not occur.
pub open spec fn first_index_of(s: Seq<char>, c: char) -> int
    decreases s.len(),
{
    if s.len() == 0 {
        0
    } else if s[0] == c {
        0
    } else {
        1 + first_index_of(s.drop_first(), c)
    }
}

/// `s` split around its first `c`, if it has one.
pub open spec fn split_at_first(s: Seq<char>, c: char) -> Option<(Seq<char>, Seq<char>)> {
    let i = first_index_of(s, c);
    if i < s.len() {
        Some((s.take(i), s.skip(i + 1)))
    } else {
        None
    }
}

/// A position that holds `c` with no `c` before it is the first position of `c`.
proof fn lemma_first_index_of(s: Seq<char>, c: char, i: int)
    requires
        0 <= i < s.len(),
        s[i] == c,
        !s.take(i).contains(c),
    ensures
        first_index_of(s, c) == i,
    decreases i,
{
    if i > 0 {
        assert(s.take(i)[0] == s[0]);
        if s[0] == c {
            assert(s.take(i).contains(c));
        }
        let t = s.drop_first().take(i - 1);
        assert(t =~= s.take(i).drop_first());
        if t.contains(c) {
            let j = choose|j: int| 0 <= j < t.len() && #[trigger] t[j] == c;
            assert(s.take(i)[j + 1] == c);
            assert(s.take(i).contains(c));
        }
        lemma_first_index_of(s.drop_first(), c, i - 1);
    }
}

/// When `c` does not occur in `s`, its first position is the end of `s`.
proof fn lemma_first_index_of_absent(s: Seq<char>, c: char)
    requires
        !s.contains(c),
    ensures
        first_index_of(s, c) == s.len(),
    decreases s.len(),
{
    if s.len() > 0 {
        assert(s[0] != c);
        let t = s.drop_first();
        if t.contains(c) {
            let j = choose|j: int| 0 <= j < t.len() && #[trigger] t[j] == c;
            assert(s[j + 1] == c);
        }
        lemma_first_index_of_absent(s.drop_first(), c);
    }
}

/// The epic id and epic file path of a database line, as the database file holds them.
pub open spec fn parsed_db_line(line: Seq<char>) -> Option<(u32, Seq<char>)> {
    match split_at_first(line, ',') {
        None => None,
        Some((id_part, path)) => match parsed_u32(id_part) {
            None => None,
            Some(id) => Some((id, path)),
        },
    }
}

/// Inserts the entries of `entries` into `m`, in order.
pub open spec fn insert_all(m: Map<u32, EpicView>, entries: Seq<(u32, EpicView)>) -> Map<
    u32,
    EpicView,
>
    decreases entries.len(),
{
    if entries.len() == 0 {
        m
    } else {
        insert_all(m, entries.drop_last()).insert(entries.last().0, entries.last().1)
    }
}

/// The views of the epics of a list of entries.
pub open spec fn entry_views(entries: Seq<(u32, Epic)>) -> Seq<(u32, EpicView)> {
    entries.map_values(|p: (u32, Epic)| (p.0, p.1@))
}

impl DbState {
    /// Reads a line of the database file: the id of an epic, a comma, and the path of the
    /// epic's file. Fails with `FileReadError` when the line has no comma or the text before
    /// the first comma is not a `u32`.
    pub fn parse_db_line(line: String) -> (r: Result<(u32, String), DbError>)
        ensures
            match parsed_db_line(line@) {
                Some((id, path)) => r matches Ok((rid, rpath)) && rid == id && rpath@ == path,
                None => r matches Err(DbError::FileReadError(m)) && m@ == (match split_at_first(
                    line@,
                    ',',
                ) {
                    None => "unable to parse data base line: "@ + line@,
                    Some((id_part, _)) => "unable to parse epic id: "@ + id_part,
                }),
            },
    {
        let chars = chars_of(line.as_str());
        match find_char(chars.as_slice(), ',') {
            None => {
                proof {
                    lemma_first_index_of_absent(chars@, ',');
                }
                Err(DbError::FileReadError(concat("unable to parse data base line: ", line.as_str())))
            },
            Some(idx) => {
                proof {
                    lemma_first_index_of(chars@, ',', idx as int);
                }
                let n = chars.len();
                assert(idx < n);
                let id_chars = slice_chars(chars.as_slice(), 0, idx);
                let after_comma = idx + 1;
                let path_chars = slice_chars(chars.as_slice(), after_comma, chars.len());
                assert(id_chars@ =~= chars@.take(idx as int));
                assert(path_chars@ =~= chars@.skip(idx + 1));
                match parse_u32(id_chars.as_slice()) {
                    None => {
                        let id_text = string_from_chars(id_chars.as_slice());
                        Err(DbError::FileReadError(concat("unable to parse epic id: ", id_text.as_str())))
                    },
                    Some(id) => Ok((id, string_from_chars(path_chars.as_slice()))),
                }
            },
        }
    }

    /// Builds a loaded database: the entries are inserted in order, so a later entry with the
    /// same epic id replaces an earlier one, and `last_unique_id` is the highest id the loaded
    /// files held.
    pub fn from_entries(
        db_dir: String,
        db_file_name: String,
        epic_dir: String,
        entries: Vec<(u32, Epic)>,
        max_id: u32,
    ) -> (d: DbState)
        ensures
            d@ == (DbView {
                epics: insert_all(Map::empty(), entry_views(entries@)),
                db_dir: db_dir@,
                db_file_name: db_file_name@,
                epic_dir: epic_dir@,
                file_path: path_join(db_dir@, db_file_name@),
                last_unique_id: max_id,
            }),
    {
        let mut d = DbState::new(db_dir, db_file_name, epic_dir);
        let ghost all = entry_views(entries@);
        let mut rest = entries;
        let ghost mut done: Seq<(u32, EpicView)> = Seq::empty();
        let ghost n = all.len();
        while rest.len() > 0
            invariant
                rest@.len() + done.len() == n,
                all.len() == n,
                done == all.take(done.len() as int),
                forall|i: int| 0 <= i < rest@.len() ==> (#[trigger] rest@[i]).0 == all[done.len() + i].0
                    && rest@[i].1@ == all[done.len() + i].1,
                epic_views(d.epics@) == insert_all(Map::empty(), done),
                d.db_dir@ == db_dir@,
                d.db_file_name@ == db_file_name@,
                d.epic_dir@ == epic_dir@,
                d.file_path@ == path_join(db_dir@, db_file_name@),
                d.last_unique_id == 0,
            decreases rest@.len(),
        {
            let ghost k = done.len() as int;
            let (id, epic) = rest.remove(0);
            proof {
                assert(id == all[k].0 && epic@ == all[k].1);
            }
            let ghost before = d.epics@;
            d.epics.insert(id, epic);
            proof {
                let done2 = done.push(all[k]);
                assert(done2 =~= all.take(k + 1));
                assert(done2.drop_last() =~= done);
                lemma_epic_views_insert(before, id, epic);
                done = done2;
            }
        }
        d.last_unique_id = max_id;
        proof {
            assert(done =~= all);
        }
        d
    }

    /// Returns the lines of the database file, each with the id of its epic: for each epic,
    /// its id, a comma, the path of its file and a line break, in the order in which the epic
    /// map yields them.
    pub fn db_lines(&self) -> (lines: Vec<(u32, String)>)
        ensures
            exists|ks: Seq<u32>|
                {
                    &&& is_key_order(self@.epics, ks)
                    &&& lines@.len() == ks.len()
                    &&& forall|i: int|
                        0 <= i < ks.len() ==> (#[trigger] lines@[i]).0 == ks[i] && lines@[i].1@ == db_line(
                            ks[i],
                            self@.epics[ks[i]].file_path,
                        )
                },
    {
        let mut lines: Vec<(u32, String)> = Vec::new();
        let ghost entries = vstd::std_specs::hash::spec_hash_map_iter(&self.epics).remaining();
        let ghost mut ks: Seq<u32> = Seq::empty();
        for pair in it: self.epics.iter()
            invariant
                it.seq() == entries,
                ks.len() == it.index(),
                forall|i: int| 0 <= i < ks.len() ==> ks[i] == *entries[i].0,
                forall|i: int|
                    0 <= i < entries.len() ==> self.epics@.contains_key(*entries[i].0)
                        && self.epics@[*entries[i].0] == *entries[i].1,
                lines@.len() == ks.len(),
                forall|i: int|
                    0 <= i < ks.len() ==> (#[trigger] lines@[i]).0 == ks[i] && lines@[i].1@ == db_line(
                        ks[i],
                        self@.epics[ks[i]].file_path,
                    ),
        {
            let id = *pair.0;
            let epic = pair.1;
            let line = concat(concat(decimal_text(id).as_str(), ",").as_str(), epic.file_path.as_str());
            let line = concat(line.as_str(), "\n");
            proof {
                reveal_strlit(",");
                reveal_strlit("\n");
                assert(self@.epics[id] == epic@);
            }
            lines.push((id, line));
            proof {
                ks = ks.push(id);
            }
        }
        proof {
            assert(ks =~= entry_keys(entries));
            lemma_entry_keys_order(self.epics@, entries);
            assert(self@.epics.dom() =~= self.epics@.dom());
            assert(is_key_order(self@.epics, ks));
            assert(lines@.len() == ks.len());
        }
        lines
    }

    /// Returns the lines of the database file: for each epic, its id, a comma and the path
    /// of its file, in the order in which the epic map yields them.
    pub fn db_file_contents(&self) -> (text: String)
        ensures
            exists|ks: Seq<u32>| is_key_order(self@.epics, ks) && text@ == db_text(self@.epics, ks),
    {
        let mut text = String::new();
        let ghost entries = vstd::std_specs::hash::spec_hash_map_iter(&self.epics).remaining();
        let ghost mut ks: Seq<u32> = Seq::empty();
        for pair in it: self.epics.iter()
            invariant
                it.seq() == entries,
                ks.len() == it.index(),
                forall|i: int| 0 <= i < ks.len() ==> ks[i] == *entries[i].0,
                forall|i: int|
                    0 <= i < entries.len() ==> self.epics@.contains_key(*entries[i].0)
                        && self.epics@[*entries[i].0] == *entries[i].1,
                text@ == db_text(self@.epics, ks),
        {
            let id = *pair.0;
            let epic = pair.1;
            let line = concat(concat(decimal_text(id).as_str(), ",").as_str(), epic.file_path.as_str());
            let line = concat(line.as_str(), "\n");
            text = concat(text.as_str(), line.as_str());
            proof {
                reveal_strlit(",");
                reveal_strlit("\n");
                assert(self@.epics[id] == epic@);
                let ks2 = ks.push(id);
                assert(ks2.drop_last() =~= ks);
                ks = ks2;
            }
        }
        proof {
            assert(ks =~= entry_keys(entries));
            lemma_entry_keys_order(self.epics@, entries);
            assert(self@.epics.dom() =~= self.epics@.dom());
        }
        text
    }
}

impl AsBytes for DbState {
    /// Returns the record (tag, name and description, without stories) of each epic, in the
    /// order in which the epic map yields them.
    fn as_bytes(&self) -> (bytes: Vec<u8>)
        ensures
            exists|ks: Seq<u32>| is_key_order(self@.epics, ks) && bytes@ == epic_headers_bytes(self@.epics, ks),
    {
        let mut bytes: Vec<u8> = Vec::new();
        let ghost entries = vstd::std_specs::hash::spec_hash_map_iter(&self.epics).remaining();
        let ghost mut ks: Seq<u32> = Seq::empty();
        for pair in it: self.epics.iter()
            invariant
                it.seq() == entries,
                ks.len() == it.index(),
                forall|i: int| 0 <= i < ks.len() ==> ks[i] == *entries[i].0,
                forall|i: int|
                    0 <= i < entries.len() ==> self.epics@.contains_key(*entries[i].0)
                        && self.epics@[*entries[i].0] == *entries[i].1,
                bytes@ == epic_headers_bytes(self@.epics, ks),
        {
            let epic = pair.1;
            let tag = epic.encode();
            let ghost before = bytes@;
            append_bytes(&mut bytes, tag.as_slice());
            append_bytes(&mut bytes, epic.name.as_str().as_bytes());
            append_bytes(&mut bytes, epic.description.as_str().as_bytes());
            proof {
                reveal(epic_header_bytes);
                let k = *pair.0;
                assert(self@.epics[k] == epic@);
                let ks2 = ks.push(k);
                assert(ks2.drop_last() =~= ks);
                assert(bytes@ =~= before + epic_header_bytes(epic@));
                ks = ks2;
            }
        }
        proof {
            assert(ks =~= entry_keys(entries));
            lemma_entry_keys_order(self.epics@, entries);
            assert(self@.epics.dom() =~= self.epics@.dom());
        }
        bytes
    }
}

/// Why reading an epic file failed: the file ended before a record it announces
/// (`FileReadError`), or a record holds text that is not UTF-8 or a byte that is no status
/// (`ParseError`).
pub enum ReadFailure {
    Read,
    Parse,
}

/// Whether `e` is the error that a read failure `f` is reported as.
pub open spec fn reports_failure(e: DbError, f: ReadFailure) -> bool {
    match f {
        ReadFailure::Read => e is FileReadError,
        ReadFailure::Parse => e is ParseError,
    }
}

/// The outcome of reading one story record at position `p` of an epic file.
pub enum StoryRead {
    /// Fewer bytes than a story tag remain: the stories have ended.
    End,
    /// The record at `p` is broken.
    Failed(ReadFailure),
    /// The record at `p` holds `story`; the next record starts at `next`.
    Record(StoryView, int),
}

/// Reads the story record at position `p` of `bytes`, for the epic with id `epic_id`.
pub open spec fn read_story_at(bytes: Seq<u8>, p: int, epic_id: u32) -> StoryRead {
    if bytes.len() - p < 17 {
        StoryRead::End
    } else {
        let tag = bytes.subrange(p, p + 17);
        let name_len = le_u32_of(tag.subrange(8, 12));
        let description_len = le_u32_of(tag.subrange(12, 16));
        let name_start = p + 17;
        let description_start = name_start + name_len;
        let end = description_start + description_len;
        if bytes.len() < end {
            StoryRead::Failed(ReadFailure::Read)
        } else {
            let name = bytes.subrange(name_start, description_start);
            let description = bytes.subrange(description_start, end);
            if !valid_utf8(name) || !valid_utf8(description) || status_of_byte(tag[16]) is None {
                StoryRead::Failed(ReadFailure::Parse)
            } else {
                StoryRead::Record(
                    StoryView {
                        id: le_u32_of(tag) as u32,
                        epic_id,
                        name: decode_utf8(name),
                        description: decode_utf8(description),
                        status: status_of_byte(tag[16]).unwrap(),
                    },
                    end,
                )
            }
        }
    }
}

/// Reads the story records of `bytes` from position `p` on: the stories read, in order, and
/// the failure that stopped the reading, if one did.
pub open spec fn read_stories(bytes: Seq<u8>, p: int, epic_id: u32) -> (
    Seq<StoryView>,
    Option<ReadFailure>,
)
    decreases bytes.len() - p,
{
    match read_story_at(bytes, p, epic_id) {
        StoryRead::End => (Seq::empty(), None),
        StoryRead::Failed(f) => (Seq::empty(), Some(f)),
        StoryRead::Record(story, next) => {
            if next > p {
                let rest = read_stories(bytes, next, epic_id);
                (seq![story] + rest.0, rest.1)
            } else {
                (Seq::empty(), None)
            }
        },
    }
}

/// The outcome of reading an epic file.
pub enum EpicRead {
    /// The epic's own record is broken.
    BadHeader(ReadFailure),
    /// A story record is broken; `read` are the stories read before it.
    BadStory(Seq<StoryView>, ReadFailure),
    /// All records are sound but the epic's status byte is no status.
    BadStatus(Seq<StoryView>),
    /// The file holds the epic with `id`, `name`, `description` and `status`, and `stories`.
    Read(u32, Seq<char>, Seq<char>, Status, Seq<StoryView>),
}

/// Reads an epic file: the epic's tag, name and description, then story records until fewer
/// bytes than a story tag remain.
pub open spec fn read_epic_file(bytes: Seq<u8>) -> EpicRead {
    if bytes.len() < 13 {
        EpicRead::BadHeader(ReadFailure::Read)
    } else {
        let tag = bytes.subrange(0, 13);
        let id = le_u32_of(tag) as u32;
        let name_len = le_u32_of(tag.subrange(4, 8));
        let description_len = le_u32_of(tag.subrange(8, 12));
        let end = 13 + name_len + description_len;
        if bytes.len() < end {
            EpicRead::BadHeader(ReadFailure::Read)
        } else {
            let name = bytes.subrange(13, 13 + name_len);
            let description = bytes.subrange(13 + name_len, end);
            if !valid_utf8(name) || !valid_utf8(description) {
                EpicRead::BadHeader(ReadFailure::Parse)
            } else {
                let stories = read_stories(bytes, end, id);
                match stories.1 {
                    Some(f) => EpicRead::BadStory(stories.0, f),
                    None => match status_of_byte(tag[12]) {
                        None => EpicRead::BadStatus(stories.0),
                        Some(status) => EpicRead::Read(
                            id,
                            decode_utf8(name),
                            decode_utf8(description),
                            status,
                            stories.0,
                        ),
                    },
                }
            }
        }
    }
}

/// The story map that inserting `stories` in order gives, each under its id.
pub open spec fn story_map(stories: Seq<StoryView>) -> Map<u32, StoryView>
    decreases stories.len(),
{
    if stories.len() == 0 {
        Map::empty()
    } else {
        story_map(stories.drop_last()).insert(stories.last().id, stories.last())
    }
}

/// The greatest of `m` and the ids of `stories`.
pub open spec fn max_story_id(m: u32, stories: Seq<StoryView>) -> u32
    decreases stories.len(),
{
    if stories.len() == 0 {
        m
    } else {
        let rest = max_story_id(m, stories.drop_last());
        if stories.last().id > rest {
            stories.last().id
        } else {
            rest
        }
    }
}

/// The greater of two ids.
pub open spec fn max_id_of(a: u32, b: u32) -> u32 {
    if a > b {
        a
    } else {
        b
    }
}

/// Reads the little-endian `u32` at `at` of `s`.
fn read_u32_at(s: &[u8], at: usize) -> (v: u32)
    requires
        at + 4 <= s@.len(),
    ensures
        v == le_u32_of(s@.subrange(at as int, at + 4)),
{
    let n = s.len();
    assert(at + 4 <= n);
    let four = slice_to_vec(s, at, at + 4);
    parse_4_bytes(four.as_slice())
}

/// The outcome of reading one story record, as the loader sees it.
enum StoryStep {
    End,
    Failed(DbError),
    Record(Story, usize),
}

/// Reads the story record at `p` of `bytes`, for the epic with id `epic_id`.
fn read_story(bytes: &[u8], p: usize, epic_id: u32) -> (r: StoryStep)
    requires
        p <= bytes@.len(),
    ensures
        match read_story_at(bytes@, p as int, epic_id) {
            StoryRead::End => r is End,
            StoryRead::Failed(f) => r matches StoryStep::Failed(e) && reports_failure(e, f),
            StoryRead::Record(story, next) => r matches StoryStep::Record(s, n) && s@ == story
                && n == next,
        },
{
    let n = bytes.len();
    if n - p < 17 {
        return StoryStep::End;
    }
    let ghost tag = bytes@.subrange(p as int, p + 17);
    let story_id = read_u32_at(bytes, p);
    let name_len = read_u32_at(bytes, p + 8);
    let description_len = read_u32_at(bytes, p + 12);
    let status_byte = bytes[p + 16];
    proof {
        assert(bytes@.subrange(p as int, p + 4) =~= tag.subrange(0, 4));
        assert(bytes@.subrange(p + 8, p + 12) =~= tag.subrange(8, 12));
        assert(bytes@.subrange(p + 12, p + 16) =~= tag.subrange(12, 16));
        assert(tag[16] == status_byte);
    }
    let name_start = p + 17;
    let remaining = n - name_start;
    if name_len as usize > remaining {
        return StoryStep::Failed(DbError::FileReadError(text_with_number(
            "unable to read story: ",
            epic_id,
            " name from file",
        )));
    }
    let description_start = name_start + name_len as usize;
    if description_len as usize > n - description_start {
        return StoryStep::Failed(DbError::FileReadError(text_with_number(
            "unable to read story: ",
            epic_id,
            " description from file",
        )));
    }
    let end = description_start + description_len as usize;
    let name_bytes = slice_to_vec(bytes, name_start, description_start);
    let description_bytes = slice_to_vec(bytes, description_start, end);
    let name = match string_from_utf8(name_bytes) {
        Some(s) => s,
        None => {
            return StoryStep::Failed(DbError::ParseError(text_with_number(
                "unable to parse story: ",
                epic_id,
                " name as valid string",
            )));
        },
    };
    let description = match string_from_utf8(description_bytes) {
        Some(s) => s,
        None => {
            return StoryStep::Failed(DbError::ParseError(text_with_number(
                "unable to parse story: ",
                epic_id,
                " description as valid string",
            )));
        },
    };
    let status = match Status::try_from_byte(status_byte) {
        Ok(s) => s,
        Err(e) => {
            return StoryStep::Failed(e);
        },
    };
    StoryStep::Record(Story::new(story_id, epic_id, name, description, status), end)
}

impl Epic {
    /// Reads an epic from the bytes of its file, stored at `path`; the loaded stories belong
    /// to the epic, whatever epic id their tags hold.
    ///
    /// `max_id` is raised to every story id read, and, when the whole epic is read, to the
    /// epic's id. Fails with `FileReadError` when the file ends before a record it announces
    /// and with `ParseError` when a record holds text that is not UTF-8 or a byte that is no
    /// status; reading stops without error once fewer bytes than a story tag remain.
    pub fn load(path: String, bytes: &[u8], max_id: &mut u32) -> (r: Result<Epic, DbError>)
        ensures
            match read_epic_file(bytes@) {
                EpicRead::BadHeader(f) => {
                    &&& r matches Err(e) && reports_failure(e, f)
                    &&& *final(max_id) == *old(max_id)
                },
                EpicRead::BadStory(read, f) => {
                    &&& r matches Err(e) && reports_failure(e, f)
                    &&& *final(max_id) == max_story_id(*old(max_id), read)
                },
                EpicRead::BadStatus(read) => {
                    &&& r matches Err(e) && e is ParseError
                    &&& *final(max_id) == max_story_id(*old(max_id), read)
                },
                EpicRead::Read(id, name, description, status, stories) => {
                    &&& r matches Ok(e) && e@ == (EpicView {
                        id,
                        name,
                        description,
                        status,
                        file_path: path@,
                        stories: story_map(stories),
                    })
                    &&& *final(max_id) == max_id_of(id, max_story_id(*old(max_id), stories))
                },
            },
    {
        let n = bytes.len();
        if n < 13 {
            return Err(DbError::FileReadError(concat("unable to read file ", path.as_str())));
        }
        let ghost tag = bytes@.subrange(0, 13);
        let id = read_u32_at(bytes, 0);
        let name_len = read_u32_at(bytes, 4);
        let description_len = read_u32_at(bytes, 8);
        let status_byte = bytes[12];
        proof {
            assert(bytes@.subrange(0, 4) =~= tag.subrange(0, 4));
            assert(bytes@.subrange(4, 8) =~= tag.subrange(4, 8));
            assert(bytes@.subrange(8, 12) =~= tag.subrange(8, 12));
        }
        if name_len as usize > n - 13 {
            return Err(DbError::FileReadError(concat(
                text_with_number("unable to read epic: ", id, " name from file ").as_str(),
                path.as_str(),
            )));
        }
        let description_start = 13 + name_len as usize;
        if description_len as usize > n - description_start {
            return Err(DbError::FileReadError(concat(
                text_with_number("unable to read epic: ", id, " description from file ").as_str(),
                path.as_str(),
            )));
        }
        let end = description_start + description_len as usize;
        let name_bytes = slice_to_vec(bytes, 13, description_start);
        let description_bytes = slice_to_vec(bytes, description_start, end);
        let name = match string_from_utf8(name_bytes) {
            Some(s) => s,
            None => {
                return Err(DbError::ParseError(text_with_number("unable to parse epic: ", id, " name")));
            },
        };
        let description = match string_from_utf8(description_bytes) {
            Some(s) => s,
            None => {
                return Err(DbError::ParseError(text_with_number("unable to parse epic: ", id, " description")));
            },
        };
        let mut stories: HashMap<u32, Story> = HashMap::new();
        let mut p: usize = end;
        let ghost mut done: Seq<StoryView> = Seq::empty();
        let ghost start_max = *max_id;
        let ghost all = read_stories(bytes@, end as int, id);
        #[verifier::loop_isolation(false)]
        loop
            invariant
                end <= p <= n,
                n == bytes@.len(),
                all == read_stories(bytes@, end as int, id),
                all.0 == done + read_stories(bytes@, p as int, id).0,
                all.1 == read_stories(bytes@, p as int, id).1,
                story_views(stories@) == story_map(done),
                *max_id == max_story_id(start_max, done),
            decreases n - p,
        {
            match read_story(bytes, p, id) {
                StoryStep::End => {
                    proof {
                        assert(all.0 =~= done);
                    }
                    break;
                },
                StoryStep::Failed(e) => {
                    proof {
                        assert(all.0 =~= done);
                        if let StoryRead::Failed(f) = read_story_at(bytes@, p as int, id) {
                            assert(all.1 == Some(f));
                            assert(read_epic_file(bytes@) == EpicRead::BadStory(all.0, f));
                        }
                    }
                    return Err(e);
                },
                StoryStep::Record(story, next) => {
                    let story_id = story.id;
                    let ghost sv = story@;
                    let ghost before = stories@;
                    if story_id > *max_id {
                        *max_id = story_id;
                    }
                    stories.insert(story_id, story);
                    proof {
                        let done2 = done.push(sv);
                        assert(done2.drop_last() =~= done);
                        assert(seq![sv] + read_stories(bytes@, next as int, id).0 =~= read_stories(bytes@, p as int, id).0);
                        assert(done + read_stories(bytes@, p as int, id).0 =~= done2 + read_stories(bytes@, next as int, id).0);
                        assert(story_views(stories@) =~= story_views(before).insert(story_id, sv));
                        done = done2;
                    }
                    p = next;
                },
            }
        }
        match Status::try_from_byte(status_byte) {
            Err(e) => Err(e),
            Ok(status) => {
                let epic = Epic::new(id, name, description, status, path, stories);
                if id > *max_id {
                    *max_id = id;
                }
                Ok(epic)
            },
        }
    }
}

/// An epic whose bytes read back as the epic itself: its stories are filed under their own
/// ids and belong to it, and every name and description has a byte length that fits a `u32`.
pub open spec fn epic_well_formed(e: EpicView) -> bool {
    &&& byte_len(e.name) <= u32::MAX
    &&& byte_len(e.description) <= u32::MAX
    &&& forall|k: u32| #[trigger] e.stories.contains_key(k) ==> story_well_formed(e.stories[k], k, e.id)
}

/// A story filed under `k` in the epic with `epic_id`, whose bytes read back as the story.
pub open spec fn story_well_formed(s: StoryView, k: u32, epic_id: u32) -> bool {
    &&& s.id == k
    &&& s.epic_id == epic_id
    &&& byte_len(s.name) <= u32::MAX
    &&& byte_len(s.description) <= u32::MAX
}

/// The stories of `m` named by `ks`, in that order.
pub open spec fn stories_in_order(m: Map<u32, StoryView>, ks: Seq<u32>) -> Seq<StoryView> {
    ks.map_values(|k: u32| m[k])
}

/// The bytes of a list of stories start with those of its first story.
pub(crate) proof fn lemma_stories_bytes_first(m: Map<u32, StoryView>, ks: Seq<u32>)
    requires
        ks.len() > 0,
    ensures
        stories_bytes(m, ks) == story_bytes(m[ks[0]]) + stories_bytes(m, ks.drop_first()),
    decreases ks.len(),
{
    if ks.len() == 1 {
        assert(ks.drop_last().len() == 0);
        assert(ks.drop_first().len() == 0);
        assert(stories_bytes(m, ks.drop_last()) =~= Seq::<u8>::empty());
        assert(stories_bytes(m, ks.drop_first()) =~= Seq::<u8>::empty());
        assert(ks.last() == ks[0]);
        assert(stories_bytes(m, ks) =~= story_bytes(m[ks[0]]));
    } else {
        lemma_stories_bytes_first(m, ks.drop_last());
        assert(ks.drop_last().drop_first() =~= ks.drop_first().drop_last());
        assert(ks.drop_first().last() == ks.last());
        assert(stories_bytes(m, ks) =~= story_bytes(m[ks[0]]) + stories_bytes(m, ks.drop_first()));
    }
}

/// The four little-endian bytes of a `u32` stored at `at` read back as that `u32`.
pub(crate) proof fn lemma_read_le(bytes: Seq<u8>, at: int, v: u32)
    requires
        0 <= at,
        at + 4 <= bytes.len(),
        bytes.subrange(at, at + 4) == le_bytes(v),
    ensures
        le_u32_of(bytes.subrange(at, at + 4)) == v,
{
    lemma_le_bytes_roundtrip(v);
}

/// A story record stored at `p` reads back as the story.
#[verifier::rlimit(60)]
proof fn lemma_read_story_record(bytes: Seq<u8>, p: int, s: StoryView)
    requires
        0 <= p,
        p + story_bytes(s).len() <= bytes.len(),
        bytes.subrange(p, p + story_bytes(s).len()) == story_bytes(s),
        byte_len(s.name) <= u32::MAX,
        byte_len(s.description) <= u32::MAX,
    ensures
        read_story_at(bytes, p, s.epic_id) == StoryRead::Record(s, p + story_bytes(s).len()),
{
    broadcast use vstd::utf8::encode_utf8_valid_utf8, vstd::utf8::encode_utf8_decode_utf8;

    reveal(story_bytes);
    let sb = story_bytes(s);
    let tb = story_tag_bytes(s);
    let nl = byte_len(s.name) as int;
    let dl = byte_len(s.description) as int;
    assert(tb.len() == 17);
    assert(sb.len() == 17 + nl + dl);
    let tag = bytes.subrange(p, p + 17);
    assert(tag =~= tb) by {
        assert(tag =~= sb.subrange(0, 17));
        assert(sb.subrange(0, 17) =~= tb);
    }
    assert(tag.subrange(0, 4) =~= le_bytes(s.id));
    assert(tag.subrange(8, 12) =~= le_bytes(nl as u32));
    assert(tag.subrange(12, 16) =~= le_bytes(dl as u32));
    lemma_read_le(tag, 0, s.id);
    assert(le_u32_of(tag) == le_u32_of(tag.subrange(0, 4)));
    lemma_read_le(tag, 8, nl as u32);
    lemma_read_le(tag, 12, dl as u32);
    assert(tag[16] == status_byte(s.status));
    assert(bytes.subrange(p + 17, p + 17 + nl) =~= utf8_bytes(s.name)) by {
        assert(bytes.subrange(p + 17, p + 17 + nl) =~= sb.subrange(17, 17 + nl));
    }
    assert(bytes.subrange(p + 17 + nl, p + 17 + nl + dl) =~= utf8_bytes(s.description)) by {
        assert(bytes.subrange(p + 17 + nl, p + 17 + nl + dl) =~= sb.subrange(17 + nl, 17 + nl + dl));
    }
}

/// The story records of `ks`, stored from `p` to the end of `bytes`, read back as those
/// stories, in order, and end the stories without error.
proof fn lemma_read_stories(bytes: Seq<u8>, p: int, m: Map<u32, StoryView>, ks: Seq<u32>, epic_id: u32)
    requires
        0 <= p <= bytes.len(),
        bytes.subrange(p, bytes.len() as int) == stories_bytes(m, ks),
        forall|i: int| 0 <= i < ks.len() ==> m.contains_key(#[trigger] ks[i]),
        forall|k: u32| #[trigger] m.contains_key(k) ==> story_well_formed(m[k], k, epic_id),
    ensures
        read_stories(bytes, p, epic_id) == (stories_in_order(m, ks), None::<ReadFailure>),
    decreases ks.len(),
{
    if ks.len() == 0 {
        assert(stories_bytes(m, ks) =~= Seq::<u8>::empty());
        assert(bytes.subrange(p, bytes.len() as int).len() == 0);
        assert(bytes.len() - p == 0);
        assert(stories_in_order(m, ks) =~= Seq::<StoryView>::empty());
    } else {
        lemma_stories_bytes_first(m, ks);
        let s = m[ks[0]];
        assert(m.contains_key(ks[0]));
        assert(story_well_formed(s, ks[0], epic_id));
        let len = story_bytes(s).len();
        let rest = bytes.subrange(p, bytes.len() as int);
        assert(rest == story_bytes(s) + stories_bytes(m, ks.drop_first()));
        assert(rest.len() >= len);
        assert(bytes.subrange(p, p + len) =~= rest.subrange(0, len as int));
        assert(rest.subrange(0, len as int) =~= story_bytes(s));
        lemma_read_story_record(bytes, p, s);
        assert(bytes.subrange(p + len, bytes.len() as int) =~= rest.subrange(len as int, rest.len() as int));
        assert(bytes.subrange(p + len, bytes.len() as int) =~= stories_bytes(m, ks.drop_first()));
        assert forall|i: int| 0 <= i < ks.drop_first().len() implies m.contains_key(#[trigger] ks.drop_first()[i]) by {
            assert(ks.drop_first()[i] == ks[i + 1]);
        }
        lemma_read_stories(bytes, p + len, m, ks.drop_first(), epic_id);
        assert(stories_in_order(m, ks) =~= seq![s] + stories_in_order(m, ks.drop_first()));
    }
}

/// Inserting the stories of a key order, each under its id, rebuilds the story map.
proof fn lemma_story_map_of_order(m: Map<u32, StoryView>, ks: Seq<u32>)
    requires
        ks.no_duplicates(),
        forall|i: int| 0 <= i < ks.len() ==> m.contains_key(#[trigger] ks[i]),
        forall|k: u32| #[trigger] m.contains_key(k) ==> m[k].id == k,
    ensures
        story_map(stories_in_order(m, ks)) == Map::new(|k: u32| ks.contains(k), |k: u32| m[k]),
    decreases ks.len(),
{
    let stories = stories_in_order(m, ks);
    if ks.len() == 0 {
        assert(story_map(stories) =~= Map::new(|k: u32| ks.contains(k), |k: u32| m[k]));
    } else {
        let front = ks.drop_last();
        assert(stories.drop_last() =~= stories_in_order(m, front));
        assert forall|i: int| 0 <= i < front.len() implies m.contains_key(#[trigger] front[i]) by {
            assert(front[i] == ks[i]);
        }
        lemma_story_map_of_order(m, front);
        assert(m.contains_key(ks.last()));
        assert(stories.last() == m[ks.last()]);
        assert forall|k: u32| ks.contains(k) <==> (front.contains(k) || k == ks.last()) by {
            if ks.contains(k) && k != ks.last() {
                let i = choose|i: int| 0 <= i < ks.len() && ks[i] == k;
                assert(i != ks.len() - 1);
                assert(front[i] == k);
            }
            if front.contains(k) {
                let i = choose|i: int| 0 <= i < front.len() && front[i] == k;
                assert(ks[i] == k);
            }
        }
        assert(story_map(stories) =~= Map::new(|k: u32| ks.contains(k), |k: u32| m[k]));
    }
}

/// A story's tag decodes to what it was encoded from: the story's id, its epic's id, the
/// byte lengths (as `u32`) of its name and description, and its status byte.
pub proof fn lemma_story_tag_roundtrip(s: StoryView)
    ensures
        story_tag_bytes(s).len() == 17,
        le_u32_of(story_tag_bytes(s)) == s.id,
        le_u32_of(story_tag_bytes(s).subrange(4, 8)) == s.epic_id,
        le_u32_of(story_tag_bytes(s).subrange(8, 12)) == byte_len(s.name) as u32,
        le_u32_of(story_tag_bytes(s).subrange(12, 16)) == byte_len(s.description) as u32,
        story_tag_bytes(s)[16] == status_byte(s.status),
{
    let t = story_tag_bytes(s);
    lemma_le_bytes_roundtrip(s.id);
    assert(t.subrange(0, 4) =~= le_bytes(s.id));
    assert(le_u32_of(t) == le_u32_of(t.subrange(0, 4)));
    assert(t.subrange(4, 8) =~= le_bytes(s.epic_id));
    lemma_read_le(t, 4, s.epic_id);
    assert(t.subrange(8, 12) =~= le_bytes(byte_len(s.name) as u32));
    lemma_read_le(t, 8, byte_len(s.name) as u32);
    assert(t.subrange(12, 16) =~= le_bytes(byte_len(s.description) as u32));
    lemma_read_le(t, 12, byte_len(s.description) as u32);
}

/// An epic's tag decodes to what it was encoded from: the epic's id, the byte lengths (as
/// `u32`) of its name and description, and its status byte.
pub proof fn lemma_epic_tag_roundtrip(e: EpicView)
    ensures
        epic_tag_bytes(e).len() == 13,
        le_u32_of(epic_tag_bytes(e)) == e.id,
        le_u32_of(epic_tag_bytes(e).subrange(4, 8)) == byte_len(e.name) as u32,
        le_u32_of(epic_tag_bytes(e).subrange(8, 12)) == byte_len(e.description) as u32,
        epic_tag_bytes(e)[12] == status_byte(e.status),
{
    let t = epic_tag_bytes(e);
    lemma_le_bytes_roundtrip(e.id);
    assert(t.subrange(0, 4) =~= le_bytes(e.id));
    assert(le_u32_of(t) == le_u32_of(t.subrange(0, 4)));
    assert(t.subrange(4, 8) =~= le_bytes(byte_len(e.name) as u32));
    lemma_read_le(t, 4, byte_len(e.name) as u32);
    assert(t.subrange(8, 12) =~= le_bytes(byte_len(e.description) as u32));
    lemma_read_le(t, 8, byte_len(e.description) as u32);
}

/// An epic's bytes read back as the epic. Loading the bytes of a well-formed epic,
/// in any order of its stories, gives the epic with its id, name, description, status and
/// stories, stored at the path it is loaded from.
pub proof fn lemma_epic_bytes_roundtrip(e: EpicView, ks: Seq<u32>)
    requires
        epic_well_formed(e),
        is_key_order(e.stories, ks),
    ensures
        read_epic_file(epic_bytes(e, ks)) == EpicRead::Read(
            e.id,
            e.name,
            e.description,
            e.status,
            stories_in_order(e.stories, ks),
        ),
        story_map(stories_in_order(e.stories, ks)) == e.stories,
{
    broadcast use vstd::utf8::encode_utf8_valid_utf8, vstd::utf8::encode_utf8_decode_utf8;

    let bytes = epic_bytes(e, ks);
    let nl = byte_len(e.name) as int;
    let dl = byte_len(e.description) as int;
    reveal(epic_header_bytes);
    let hb = epic_header_bytes(e);
    assert(epic_tag_bytes(e).len() == 13);
    assert(hb.len() == 13 + nl + dl);
    let tag = bytes.subrange(0, 13);
    assert(tag =~= epic_tag_bytes(e));
    assert(tag.subrange(0, 4) =~= le_bytes(e.id));
    assert(tag.subrange(4, 8) =~= le_bytes(nl as u32));
    assert(tag.subrange(8, 12) =~= le_bytes(dl as u32));
    lemma_read_le(tag, 0, e.id);
    assert(le_u32_of(tag) == le_u32_of(tag.subrange(0, 4)));
    lemma_read_le(tag, 4, nl as u32);
    lemma_read_le(tag, 8, dl as u32);
    assert(bytes.subrange(13, 13 + nl) =~= utf8_bytes(e.name));
    assert(bytes.subrange(13 + nl, 13 + nl + dl) =~= utf8_bytes(e.description));
    assert(bytes.subrange(hb.len() as int, bytes.len() as int) =~= stories_bytes(e.stories, ks));
    assert forall|i: int| 0 <= i < ks.len() implies e.stories.contains_key(#[trigger] ks[i]) by {
        assert(ks.to_set().contains(ks[i]));
    }
    assert forall|k: u32| #[trigger] e.stories.contains_key(k) implies story_well_formed(e.stories[k], k, e.id) by {
    }
    lemma_read_stories(bytes, hb.len() as int, e.stories, ks, e.id);
    lemma_story_map_of_order(e.stories, ks);
    assert forall|k: u32| ks.contains(k) <==> e.stories.contains_key(k) by {
        assert(ks.to_set().contains(k) <==> ks.contains(k));
    }
    assert(Map::new(|k: u32| ks.contains(k), |k: u32| e.stories[k]) =~= e.stories);
}

/// What `Epic::as_bytes` gives of a well-formed epic is read back by `Epic::load` as
/// the same epic. The bytes, in whatever order the stories were written, read as the epic's
/// id, name, description and status, with a story map equal to the epic's.
pub proof fn lemma_load_reads_as_bytes(e: EpicView, bytes: Seq<u8>)
    requires
        epic_well_formed(e),
        exists|ks: Seq<u32>| is_key_order(e.stories, ks) && bytes == epic_bytes(e, ks),
    ensures
        read_epic_file(bytes) matches EpicRead::Read(id, name, description, status, stories) && id
            == e.id && name == e.name && description == e.description && status == e.status
            && story_map(stories) == e.stories,
{
    let ks = choose|ks: Seq<u32>| is_key_order(e.stories, ks) && bytes == epic_bytes(e, ks);
    lemma_epic_bytes_roundtrip(e, ks);
}

/// A database line read back gives the epic id and path it was written with. The line
/// `decimal_chars(id) + "," + path` (as a reader of lines hands it over, without its line
/// break) reads as `(id, path)`, whatever the path holds.
pub proof fn lemma_db_line_roundtrip(id: u32, path: Seq<char>)
    ensures
        parsed_db_line(decimal_chars(id as nat) + ","@ + path) == Some((id, path)),
{
    reveal_strlit(",");
    let d = decimal_chars(id as nat);
    let line = d + ","@ + path;
    lemma_decimal_roundtrip(id as nat);
    lemma_parse_decimal(id);
    assert(line.take(d.len() as int) =~= d);
    if d.contains(',') {
        let i = choose|i: int| 0 <= i < d.len() && d[i] == ',';
        assert(is_digit(d[i]));
    }
    assert(line[d.len() as int] == ',');
    lemma_first_index_of(line, ',', d.len() as int);
    assert(line.skip(d.len() as int + 1) =~= path);
}

/// Inserting the epics of `epics` named by a prefix of a key order, each under its id, gives
/// `epics` restricted to those ids.
proof fn lemma_insert_all_prefix(epics: Map<u32, EpicView>, ks: Seq<u32>, n: int)
    requires
        is_key_order(epics, ks),
        0 <= n <= ks.len(),
    ensures
        insert_all(Map::empty(), ks.take(n).map_values(|k: u32| (k, epics[k]))) == epics.restrict(
            ks.take(n).to_set(),
        ),
    decreases n,
{
    let entries = ks.take(n).map_values(|k: u32| (k, epics[k]));
    if n == 0 {
        assert(epics.restrict(ks.take(n).to_set()) =~= Map::empty());
    } else {
        lemma_insert_all_prefix(epics, ks, n - 1);
        assert(entries.drop_last() =~= ks.take(n - 1).map_values(|k: u32| (k, epics[k])));
        let k = ks[n - 1];
        assert(ks.to_set().contains(k));
        assert(ks.take(n).to_set() =~= ks.take(n - 1).to_set().insert(k)) by {
            assert forall|x: u32| ks.take(n).to_set().contains(x) <==> ks.take(n - 1).to_set().insert(k).contains(x) by {
                if ks.take(n).contains(x) {
                    let i = choose|i: int| 0 <= i < n && #[trigger] ks.take(n)[i] == x;
                    if i < n - 1 {
                        assert(ks.take(n - 1)[i] == x);
                    }
                }
                if ks.take(n - 1).contains(x) {
                    let i = choose|i: int| 0 <= i < n - 1 && #[trigger] ks.take(n - 1)[i] == x;
                    assert(ks.take(n)[i] == x);
                }
                if x == k {
                    assert(ks.take(n)[n - 1] == x);
                }
            }
        }
        assert(epics.restrict(ks.take(n).to_set()) =~= epics.restrict(ks.take(n - 1).to_set()).insert(k, epics[k]));
    }
}

/// Loading the epics in the order in which the database file lists them, each under the id its
/// line gives, rebuilds the epics the file was written from: inserting each epic of a key
/// order under its id gives back the map.
pub proof fn lemma_reload_rebuilds_epics(epics: Map<u32, EpicView>, ks: Seq<u32>)
    requires
        is_key_order(epics, ks),
    ensures
        insert_all(Map::empty(), ks.map_values(|k: u32| (k, epics[k]))) == epics,
{
    lemma_insert_all_prefix(epics, ks, ks.len() as int);
    assert(ks.take(ks.len() as int) =~= ks);
    assert(epics.restrict(ks.to_set()) =~= epics);
}

/// The epic that `Epic::load` gives for the bytes of a file read from `path`, when it reads
/// them whole.
pub open spec fn loaded_epic(bytes: Seq<u8>, path: Seq<char>) -> Option<EpicView> {
    match read_epic_file(bytes) {
        EpicRead::Read(id, name, description, status, stories) => Some(
            EpicView { id, name, description, status, file_path: path, stories: story_map(stories) },
        ),
        _ => None,
    }
}

/// A database written to disk loads back as the same epics. Each line of its file, as a
/// reader of lines hands it over, reads as the id and path it was written with; the bytes
/// written for each epic, in whatever order its stories came, load from that path as the
/// epic; and loading the epics in the order of the lines, each under its line's id, rebuilds
/// the map of epics.
pub proof fn lemma_database_reloads(d: DbView, ks: Seq<u32>)
    requires
        is_key_order(d.epics, ks),
        forall|k: u32| #[trigger] d.epics.contains_key(k) ==> epic_well_formed(d.epics[k]),
    ensures
        forall|i: int|
            0 <= i < ks.len() ==> parsed_db_line(
                decimal_chars(ks[i] as nat) + ","@ + d.epics[ks[i]].file_path,
            ) == Some((ks[i], d.epics[#[trigger] ks[i]].file_path)),
        forall|k: u32, order: Seq<u32>|
            d.epics.contains_key(k) && is_key_order(d.epics[k].stories, order) ==> loaded_epic(
                #[trigger] epic_bytes(d.epics[k], order),
                d.epics[k].file_path,
            ) == Some(d.epics[k]),
        insert_all(Map::empty(), ks.map_values(|k: u32| (k, d.epics[k]))) == d.epics,
{
    assert forall|i: int| 0 <= i < ks.len() implies parsed_db_line(
        decimal_chars(ks[i] as nat) + ","@ + d.epics[ks[i]].file_path,
    ) == Some((ks[i], d.epics[#[trigger] ks[i]].file_path)) by {
        lemma_db_line_roundtrip(ks[i], d.epics[ks[i]].file_path);
    }
    assert forall|k: u32, order: Seq<u32>|
        d.epics.contains_key(k) && is_key_order(d.epics[k].stories, order) implies loaded_epic(
        #[trigger] epic_bytes(d.epics[k], order),
        d.epics[k].file_path,
    ) == Some(d.epics[k]) by {
        let e = d.epics[k];
        lemma_epic_bytes_roundtrip(e, order);
    }
    lemma_reload_rebuilds_epics(d.epics, ks);
}

/// The database `old` with a new open epic, with no stories, under the next unique id: what
/// `DbState::add_epic` makes of it.
pub open spec fn db_with_new_epic(old: DbView, name: Seq<char>, description: Seq<char>) -> DbView {
    let id = (old.last_unique_id + 1) as u32;
    DbView {
        epics: old.epics.insert(
            id,
            EpicView {
                id,
                name,
                description,
                status: Status::Open,
                file_path: epic_file_path(old.db_dir, old.epic_dir, id),
                stories: Map::empty(),
            },
        ),
        last_unique_id: id,
        ..old
    }
}

/// The database `old` with a new open story, under the next unique id, in the epic with
/// `epic_id`: what `DbState::add_story` makes of it when that epic exists and holds no story
/// with that id.
pub open spec fn db_with_new_story(
    old: DbView,
    epic_id: u32,
    name: Seq<char>,
    description: Seq<char>,
) -> DbView {
    let id = (old.last_unique_id + 1) as u32;
    let e = old.epics[epic_id];
    DbView {
        epics: old.epics.insert(
            epic_id,
            EpicView {
                stories: e.stories.insert(
                    id,
                    StoryView { id, epic_id, name, description, status: Status::Open },
                ),
                ..e
            },
        ),
        last_unique_id: id,
        ..old
    }
}

/// A database as `DbState::new`, `DbState::add_epic` and `DbState::add_story` build it: its
/// file is in its directory, each epic is filed under its own id, each story under its own id
/// in the epic it names, every id is at most the last unique id, and the last unique id is
/// zero or the id of an epic or story it holds.
pub open spec fn db_built(d: DbView) -> bool {
    &&& d.file_path == path_join(d.db_dir, d.db_file_name)
    &&& forall|k: u32| #[trigger] d.epics.contains_key(k) ==> d.epics[k].id == k && k <= d.last_unique_id
    &&& forall|k: u32, s: u32|
        #[trigger] d.epics.contains_key(k) && #[trigger] d.epics[k].stories.contains_key(s) ==> {
            &&& d.epics[k].stories[s].id == s
            &&& d.epics[k].stories[s].epic_id == k
            &&& s <= d.last_unique_id
        }
    &&& d.last_unique_id == 0 || d.epics.contains_key(d.last_unique_id) || exists|k: u32|
        #[trigger] d.epics.contains_key(k) && d.epics[k].stories.contains_key(d.last_unique_id)
}

/// Every name and description of `d`, of an epic or a story, has a byte length that fits a
/// `u32`.
pub open spec fn db_texts_fit(d: DbView) -> bool {
    &&& forall|k: u32| #[trigger] d.epics.contains_key(k) ==> byte_len(d.epics[k].name) <= u32::MAX
        && byte_len(d.epics[k].description) <= u32::MAX
    &&& forall|k: u32, s: u32|
        #[trigger] d.epics.contains_key(k) && #[trigger] d.epics[k].stories.contains_key(s) ==> byte_len(
            d.epics[k].stories[s].name,
        ) <= u32::MAX && byte_len(d.epics[k].stories[s].description) <= u32::MAX
}

/// A new database is built.
pub proof fn lemma_new_db_built(db_dir: Seq<char>, db_file_name: Seq<char>, epic_dir: Seq<char>)
    ensures
        db_built(
            DbView {
                epics: Map::empty(),
                db_dir,
                db_file_name,
                epic_dir,
                file_path: path_join(db_dir, db_file_name),
                last_unique_id: 0,
            },
        ),
{
}

/// Adding an epic keeps a database built.
pub proof fn lemma_add_epic_keeps_built(old: DbView, name: Seq<char>, description: Seq<char>)
    requires
        db_built(old),
        old.last_unique_id < u32::MAX,
    ensures
        db_built(db_with_new_epic(old, name, description)),
{
    let new = db_with_new_epic(old, name, description);
    let id = new.last_unique_id;
    assert(new.epics.contains_key(id));
    assert forall|k: u32, s: u32|
        #[trigger] new.epics.contains_key(k) && #[trigger] new.epics[k].stories.contains_key(s) implies {
            &&& new.epics[k].stories[s].id == s
            &&& new.epics[k].stories[s].epic_id == k
            &&& s <= new.last_unique_id
        } by {
        if k != id {
            assert(old.epics.contains_key(k) && old.epics[k].stories.contains_key(s));
        }
    }
}

/// Adding a story to an epic of a built database keeps it built; the story's new id is held
/// by no story of that epic yet.
pub proof fn lemma_add_story_keeps_built(
    old: DbView,
    epic_id: u32,
    name: Seq<char>,
    description: Seq<char>,
)
    requires
        db_built(old),
        old.epics.contains_key(epic_id),
        old.last_unique_id < u32::MAX,
    ensures
        !old.epics[epic_id].stories.contains_key((old.last_unique_id + 1) as u32),
        db_built(db_with_new_story(old, epic_id, name, description)),
{
    let id = (old.last_unique_id + 1) as u32;
    if old.epics[epic_id].stories.contains_key(id) {
        assert(id <= old.last_unique_id);
    }
    let new = db_with_new_story(old, epic_id, name, description);
    assert(new.epics.contains_key(epic_id) && new.epics[epic_id].stories.contains_key(id));
    assert forall|k: u32, s: u32|
        #[trigger] new.epics.contains_key(k) && #[trigger] new.epics[k].stories.contains_key(s) implies {
            &&& new.epics[k].stories[s].id == s
            &&& new.epics[k].stories[s].epic_id == k
            &&& s <= new.last_unique_id
        } by {
        if k != epic_id || s != id {
            assert(old.epics.contains_key(k) && old.epics[k].stories.contains_key(s));
        }
    }
}

/// The `max_id` that loading the epics of `epics` named by `ks`, in that order, leaves when it
/// starts at `m`: the file of the epic named by `ks[i]` holds its stories in the order
/// `orders[i]`, and `Epic::load` raises `max_id` to each story id and then to the epic id.
pub open spec fn reload_max_id(
    epics: Map<u32, EpicView>,
    ks: Seq<u32>,
    orders: Seq<Seq<u32>>,
    m: u32,
) -> u32
    decreases ks.len(),
{
    if ks.len() == 0 {
        m
    } else {
        let prev = reload_max_id(epics, ks.drop_last(), orders.drop_last(), m);
        let e = epics[ks.last()];
        max_id_of(e.id, max_story_id(prev, stories_in_order(e.stories, orders.last())))
    }
}

/// The greatest of `m` and the ids of `stories` is at least each of them, and is `m` or one
/// of the ids.
proof fn lemma_max_story_id(m: u32, stories: Seq<StoryView>)
    ensures
        max_story_id(m, stories) >= m,
        forall|j: int| 0 <= j < stories.len() ==> max_story_id(m, stories) >= #[trigger] stories[j].id,
        max_story_id(m, stories) == m || exists|j: int|
            0 <= j < stories.len() && max_story_id(m, stories) == #[trigger] stories[j].id,
    decreases stories.len(),
{
    if stories.len() > 0 {
        let rest = stories.drop_last();
        lemma_max_story_id(m, rest);
        assert forall|j: int| 0 <= j < stories.len() implies max_story_id(m, stories) >= #[trigger] stories[j].id by {
            if j < stories.len() - 1 {
                assert(stories[j] == rest[j]);
            }
        }
        if max_story_id(m, stories) != m {
            if max_story_id(m, stories) == stories.last().id {
                assert(stories[stories.len() - 1] == stories.last());
            } else {
                let j = choose|j: int| 0 <= j < rest.len() && max_story_id(m, rest) == #[trigger] rest[j].id;
                assert(stories[j] == rest[j]);
            }
        }
    }
}

/// Whether `x` is the id of an epic of `epics` named by `ks`, or the id of a story of one.
pub open spec fn is_loaded_id(epics: Map<u32, EpicView>, ks: Seq<u32>, x: u32) -> bool {
    exists|i: int|
        0 <= i < ks.len() && (x == epics[#[trigger] ks[i]].id || epics[ks[i]].stories.contains_key(x))
}

/// What reloading leaves in `max_id` is at least `m` and each id of the epics loaded and of
/// their stories, and is `m` or one of those ids.
proof fn lemma_reload_max_id(
    epics: Map<u32, EpicView>,
    ks: Seq<u32>,
    orders: Seq<Seq<u32>>,
    m: u32,
)
    requires
        orders.len() == ks.len(),
        forall|i: int| 0 <= i < ks.len() ==> is_key_order(epics[#[trigger] ks[i]].stories, orders[i]),
        forall|i: int, s: u32|
            0 <= i < ks.len() && #[trigger] epics[ks[i]].stories.contains_key(s) ==> epics[ks[i]].stories[s].id == s,
    ensures
        reload_max_id(epics, ks, orders, m) >= m,
        forall|i: int| 0 <= i < ks.len() ==> reload_max_id(epics, ks, orders, m) >= epics[#[trigger] ks[i]].id,
        forall|i: int, s: u32|
            0 <= i < ks.len() && #[trigger] epics[ks[i]].stories.contains_key(s) ==> reload_max_id(epics, ks, orders, m) >= s,
        reload_max_id(epics, ks, orders, m) == m || is_loaded_id(epics, ks, reload_max_id(epics, ks, orders, m)),
    decreases ks.len(),
{
    if ks.len() > 0 {
        let n = ks.len() - 1;
        let ks0 = ks.drop_last();
        let o0 = orders.drop_last();
        assert forall|i: int| 0 <= i < ks0.len() implies is_key_order(epics[#[trigger] ks0[i]].stories, o0[i]) by {
            assert(ks0[i] == ks[i] && o0[i] == orders[i]);
        }
        assert forall|i: int, s: u32|
            0 <= i < ks0.len() && #[trigger] epics[ks0[i]].stories.contains_key(s) implies epics[ks0[i]].stories[s].id == s by {
            assert(ks0[i] == ks[i]);
        }
        lemma_reload_max_id(epics, ks0, o0, m);
        let prev = reload_max_id(epics, ks0, o0, m);
        let e = epics[ks[n]];
        let order = orders[n];
        assert(is_key_order(e.stories, order));
        let st = stories_in_order(e.stories, order);
        lemma_max_story_id(prev, st);
        let r = reload_max_id(epics, ks, orders, m);
        assert(r == max_id_of(e.id, max_story_id(prev, st)));
        assert forall|i: int| 0 <= i < ks.len() implies r >= epics[#[trigger] ks[i]].id by {
            if i < n {
                assert(ks0[i] == ks[i]);
            }
        }
        assert forall|i: int, s: u32| 0 <= i < ks.len() && #[trigger] epics[ks[i]].stories.contains_key(s) implies r >= s by {
            if i < n {
                assert(ks0[i] == ks[i]);
                assert(epics[ks0[i]].stories.contains_key(s));
            } else {
                assert(order.to_set().contains(s));
                let j = choose|j: int| 0 <= j < order.len() && order[j] == s;
                assert(st[j] == e.stories[order[j]]);
                assert(st[j].id == s);
            }
        }
        if r != m {
            if r == e.id {
                assert(x_loaded(epics, ks, n, r));
            } else if r == max_story_id(prev, st) && r != prev {
                let j = choose|j: int| 0 <= j < st.len() && r == #[trigger] st[j].id;
                assert(st[j] == e.stories[order[j]]);
                assert(order.to_set().contains(order[j]));
                assert(e.stories.contains_key(order[j]));
                assert(st[j].id == order[j]);
                assert(x_loaded(epics, ks, n, r));
            } else {
                assert(r == prev && prev != m);
                let i = choose|i: int|
                    0 <= i < ks0.len() && (prev == epics[#[trigger] ks0[i]].id || epics[ks0[i]].stories.contains_key(prev));
                assert(ks0[i] == ks[i]);
                assert(x_loaded(epics, ks, i, r));
            }
        }
    }
}

/// `x` is the id of the epic named by `ks[i]` or of one of its stories.
spec fn x_loaded(epics: Map<u32, EpicView>, ks: Seq<u32>, i: int, x: u32) -> bool {
    &&& 0 <= i < ks.len()
    &&& (x == epics[ks[i]].id || epics[ks[i]].stories.contains_key(x))
}

/// A database built by `new`, `add_epic` and `add_story`, written and read back, is the same
/// database. Its file lists each epic once, in the order `ks`; the file of the epic listed
/// `i`-th holds its stories in the order `orders[i]`. Each line reads back as the id and path
/// it was written with; each epic file, read from that path, loads as the epic; and building
/// the database from those entries, with the `max_id` the loads leave, gives the database back,
/// its last unique id included. Names and descriptions have byte lengths that fit a `u32`.
pub proof fn lemma_database_round_trip(d: DbView, ks: Seq<u32>, orders: Seq<Seq<u32>>)
    requires
        db_built(d),
        db_texts_fit(d),
        is_key_order(d.epics, ks),
        orders.len() == ks.len(),
        forall|i: int| 0 <= i < ks.len() ==> is_key_order(d.epics[#[trigger] ks[i]].stories, orders[i]),
    ensures
        forall|i: int|
            0 <= i < ks.len() ==> parsed_db_line(
                decimal_chars(ks[i] as nat) + ","@ + d.epics[ks[i]].file_path,
            ) == Some((ks[i], d.epics[#[trigger] ks[i]].file_path)),
        forall|i: int|
            0 <= i < ks.len() ==> loaded_epic(
                epic_bytes(d.epics[#[trigger] ks[i]], orders[i]),
                d.epics[ks[i]].file_path,
            ) == Some(d.epics[ks[i]]),
        (DbView {
            epics: insert_all(Map::empty(), ks.map_values(|k: u32| (k, d.epics[k]))),
            db_dir: d.db_dir,
            db_file_name: d.db_file_name,
            epic_dir: d.epic_dir,
            file_path: path_join(d.db_dir, d.db_file_name),
            last_unique_id: reload_max_id(d.epics, ks, orders, 0),
        }) == d,
{
    assert forall|k: u32| #[trigger] d.epics.contains_key(k) implies epic_well_formed(d.epics[k]) by {
        assert forall|s: u32| #[trigger] d.epics[k].stories.contains_key(s) implies story_well_formed(
            d.epics[k].stories[s],
            s,
            d.epics[k].id,
        ) by {
            assert(d.epics.contains_key(k) && d.epics[k].stories.contains_key(s));
        }
    }
    lemma_database_reloads(d, ks);
    assert forall|i: int| 0 <= i < ks.len() implies d.epics.contains_key(#[trigger] ks[i]) by {
        assert(ks.to_set().contains(ks[i]));
    }
    assert forall|i: int, s: u32|
        0 <= i < ks.len() && #[trigger] d.epics[ks[i]].stories.contains_key(s) implies d.epics[ks[i]].stories[s].id == s by {
        assert(d.epics.contains_key(ks[i]));
    }
    lemma_reload_max_id(d.epics, ks, orders, 0);
    let r = reload_max_id(d.epics, ks, orders, 0);
    let last = d.last_unique_id;
    if r != 0 {
        let i = choose|i: int|
            0 <= i < ks.len() && (r == d.epics[#[trigger] ks[i]].id || d.epics[ks[i]].stories.contains_key(r));
        assert(d.epics.contains_key(ks[i]));
    }
    assert(r <= last);
    if last != 0 {
        if d.epics.contains_key(last) {
            assert(ks.to_set().contains(last));
            let i = choose|i: int| 0 <= i < ks.len() && ks[i] == last;
            assert(r >= d.epics[ks[i]].id);
        } else {
            let k = choose|k: u32| #[trigger] d.epics.contains_key(k) && d.epics[k].stories.contains_key(last);
            assert(ks.to_set().contains(k));
            let i = choose|i: int| 0 <= i < ks.len() && ks[i] == k;
            assert(d.epics[ks[i]].stories.contains_key(last));
        }
    }
    assert(r == last);
}

/// Loading the bytes of a well-formed epic raises `max_id` to the greatest of its old value,
/// the epic's id and the ids of the epic's stories, in whatever order they were written.
pub proof fn lemma_load_max_id(e: EpicView, ks: Seq<u32>, m: u32)
    requires
        epic_well_formed(e),
        is_key_order(e.stories, ks),
    ensures
        read_epic_file(epic_bytes(e, ks)) matches EpicRead::Read(id, _, _, _, stories) && {
            let r = max_id_of(id, max_story_id(m, stories));
            &&& r >= m
            &&& r >= e.id
            &&& forall|s: u32| #[trigger] e.stories.contains_key(s) ==> r >= s
            &&& (r == m || r == e.id || e.stories.contains_key(r))
        },
{
    lemma_epic_bytes_roundtrip(e, ks);
    let st = stories_in_order(e.stories, ks);
    lemma_max_story_id(m, st);
    let r = max_id_of(e.id, max_story_id(m, st));
    assert forall|j: int| 0 <= j < ks.len() implies e.stories.contains_key(#[trigger] ks[j]) && st[j].id == ks[j] by {
        assert(ks.to_set().contains(ks[j]));
        assert(story_well_formed(e.stories[ks[j]], ks[j], e.id));
    }
    assert forall|s: u32| #[trigger] e.stories.contains_key(s) implies r >= s by {
        assert(ks.to_set().contains(s));
        let j = choose|j: int| 0 <= j < ks.len() && ks[j] == s;
        assert(st[j].id == s);
    }
    if r != m && r != e.id {
        let j = choose|j: int| 0 <= j < st.len() && max_story_id(m, st) == #[trigger] st[j].id;
        assert(st[j].id == ks[j]);
    }
}

} // verus!

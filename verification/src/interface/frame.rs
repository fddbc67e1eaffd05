//! Frames: what the client shows of an epic or a story, read from the bytes of a response.
//!
//! A frame is read from a tag, which holds the ids, the byte lengths of the name and the
//! description and the status byte, and from the bytes that follow the tag.

use vstd::prelude::*;
use vstd::utf8::*;
use crate::interface::UserError;
use crate::models::{status_of_byte, BytesEncode, Epic, Status, Story};
use crate::text::{concat, decimal_text, string_from_utf8};
use crate::utils::{le_u32_of, slice_to_vec};

verus! {

/// What a client shows of an epic.
pub struct EpicFrameView {
    pub id: u32,
    pub name: Seq<char>,
    pub description: Seq<char>,
    pub status: Status,
}

/// What a client shows of a story.
pub struct StoryFrameView {
    pub id: u32,
    pub epic_id: u32,
    pub name: Seq<char>,
    pub description: Seq<char>,
    pub status: Status,
}

/// The client-facing information of a single epic.
#[derive(Debug)]
pub struct EpicFrame {
    id: u32,
    name: String,
    description: String,
    status: Status,
}

/// The client-facing information of a single story.
#[derive(Debug)]
pub struct StoryFrame {
    id: u32,
    epic_id: u32,
    name: String,
    description: String,
    status: Status,
}

impl View for EpicFrame {
    type V = EpicFrameView;

    closed spec fn view(&self) -> EpicFrameView {
        EpicFrameView {
            id: self.id,
            name: self.name@,
            description: self.description@,
            status: self.status,
        }
    }
}

impl View for StoryFrame {
    type V = StoryFrameView;

    closed spec fn view(&self) -> StoryFrameView {
        StoryFrameView {
            id: self.id,
            epic_id: self.epic_id,
            name: self.name@,
            description: self.description@,
            status: self.status,
        }
    }
}

/// Why reading a frame failed: the bytes ended too soon (`ReadFrameError`), or they hold a
/// byte that is no status or text that is not UTF-8 (`ParseFrameError`).
pub enum FrameFailure {
    Read,
    Parse,
}

/// Whether `e` is the error that a frame failure `f` is reported as.
pub open spec fn reports_frame_failure(e: UserError, f: FrameFailure) -> bool {
    match f {
        FrameFailure::Read => e is ReadFrameError,
        FrameFailure::Parse => e is ParseFrameError,
    }
}

/// The outcome of reading one frame.
pub enum FrameRead<F> {
    /// The frame is broken.
    Failed(FrameFailure),
    /// The frame holds `F`; the bytes after it start at the position given.
    Frame(F, int),
}

/// Reads a name of `name_len` bytes and a description of `description_len` bytes from `p` on:
/// the two texts and the position after them.
pub open spec fn read_texts(data: Seq<u8>, p: int, name_len: int, description_len: int) -> Result<
    (Seq<char>, Seq<char>, int),
    FrameFailure,
> {
    let end = p + name_len + description_len;
    if data.len() < end {
        Err(FrameFailure::Read)
    } else {
        let name = data.subrange(p, p + name_len);
        let description = data.subrange(p + name_len, end);
        if !valid_utf8(name) || !valid_utf8(description) {
            Err(FrameFailure::Parse)
        } else {
            Ok((decode_utf8(name), decode_utf8(description), end))
        }
    }
}

/// Reads the epic frame whose 13-byte tag is `tag` and whose name and description start at
/// `p` of `data`. The status byte is checked first.
pub open spec fn epic_frame_at(tag: Seq<u8>, data: Seq<u8>, p: int) -> FrameRead<EpicFrameView> {
    match status_of_byte(tag[12]) {
        None => FrameRead::Failed(FrameFailure::Parse),
        Some(status) => match read_texts(
            data,
            p,
            le_u32_of(tag.subrange(4, 8)),
            le_u32_of(tag.subrange(8, 12)),
        ) {
            Err(f) => FrameRead::Failed(f),
            Ok((name, description, next)) => FrameRead::Frame(
                EpicFrameView { id: le_u32_of(tag) as u32, name, description, status },
                next,
            ),
        },
    }
}

/// Reads the story frame whose 17-byte tag is `tag` and whose name and description start at
/// `p` of `data`. The status byte is checked first.
pub open spec fn story_frame_at(tag: Seq<u8>, data: Seq<u8>, p: int) -> FrameRead<StoryFrameView> {
    match status_of_byte(tag[16]) {
        None => FrameRead::Failed(FrameFailure::Parse),
        Some(status) => match read_texts(
            data,
            p,
            le_u32_of(tag.subrange(8, 12)),
            le_u32_of(tag.subrange(12, 16)),
        ) {
            Err(f) => FrameRead::Failed(f),
            Ok((name, description, next)) => FrameRead::Frame(
                StoryFrameView {
                    id: le_u32_of(tag) as u32,
                    epic_id: le_u32_of(tag.subrange(4, 8)) as u32,
                    name,
                    description,
                    status,
                },
                next,
            ),
        },
    }
}

/// Reads a name of `name_len` bytes and a description of `description_len` bytes of `reader`
/// from `*pos` on, moving `*pos` past them.
fn read_texts_from(reader: &[u8], pos: &mut usize, name_len: u32, description_len: u32, kind: &str) -> (r:
    Result<(String, String), UserError>)
    requires
        *old(pos) <= reader@.len(),
    ensures
        match read_texts(reader@, *old(pos) as int, name_len as int, description_len as int) {
            Err(f) => r matches Err(e) && reports_frame_failure(e, f),
            Ok((n, d, next)) => r matches Ok((name, description)) && name@ == n && description@
                == d && *final(pos) == next,
        },
        *final(pos) <= reader@.len(),
{
    let start = *pos;
    let left = reader.len() - start;
    if name_len as usize > left || description_len as usize > left - name_len as usize {
        return Err(UserError::ReadFrameError("unable to read frame from reader".to_owned()));
    }
    let name_end = start + name_len as usize;
    let end = name_end + description_len as usize;
    let name_bytes = slice_to_vec(reader, start, name_end);
    let description_bytes = slice_to_vec(reader, name_end, end);
    *pos = end;
    let name = match string_from_utf8(name_bytes) {
        Some(s) => s,
        None => {
            let head = concat("unable to parse ", kind);
            return Err(UserError::ParseFrameError(concat(head.as_str(), "'s name as valid utf8")));
        },
    };
    let description = match string_from_utf8(description_bytes) {
        Some(s) => s,
        None => {
            let head = concat("unable to parse ", kind);
            return Err(UserError::ParseFrameError(concat(head.as_str(), "'s description as valid utf8")));
        },
    };
    Ok((name, description))
}

impl EpicFrame {
    /// Reads the epic frame whose tag is `tag_buf` from `reader`, whose bytes from `*pos` on
    /// are the epic's name and description, moving `*pos` past them.
    ///
    /// Fails with `ParseFrameError` when the status byte names no status or a text is not
    /// UTF-8, and with `ReadFrameError` when the bytes end too soon.
    pub fn try_from_reader(tag_buf: &[u8; 13], reader: &[u8], pos: &mut usize) -> (r: Result<
        EpicFrame,
        UserError,
    >)
        requires
            *old(pos) <= reader@.len(),
        ensures
            match epic_frame_at(tag_buf@, reader@, *old(pos) as int) {
                FrameRead::Failed(f) => r matches Err(e) && reports_frame_failure(e, f),
                FrameRead::Frame(fr, next) => r matches Ok(frame) && frame@ == fr && *final(pos)
                    == next,
            },
            *final(pos) <= reader@.len(),
    {
        let (epic_id, name_len, description_len, status) = Epic::decode(tag_buf);
        let status = match Status::try_from_byte(status) {
            Ok(s) => s,
            Err(_) => return Err(UserError::ParseFrameError(concat(
                "unable to parse status byte for epic ",
                decimal_text(epic_id).as_str(),
            ))),
        };
        let (name, description) = match read_texts_from(reader, pos, name_len, description_len, "Epic Frame") {
            Ok(texts) => texts,
            Err(e) => return Err(e),
        };
        Ok(EpicFrame { id: epic_id, name, description, status })
    }

    /// Returns the id of the epic.
    pub fn id(&self) -> (r: u32)
        ensures
            r == self@.id,
    {
        self.id
    }

    /// Returns the name of the epic.
    pub fn name(&self) -> (r: &String)
        ensures
            r@ == self@.name,
    {
        &self.name
    }

    /// Returns the description of the epic.
    pub fn description(&self) -> (r: &String)
        ensures
            r@ == self@.description,
    {
        &self.description
    }

    /// Returns the status of the epic.
    pub fn status(&self) -> (r: Status)
        ensures
            r == self@.status,
    {
        self.status
    }
}

impl StoryFrame {
    /// Reads the story frame whose tag is `tag_buf` from `reader`, whose bytes from `*pos` on
    /// are the story's name and description, moving `*pos` past them.
    ///
    /// Fails with `ParseFrameError` when the status byte names no status or a text is not
    /// UTF-8, and with `ReadFrameError` when the bytes end too soon.
    pub fn try_from_reader(tag_buf: &[u8; 17], reader: &[u8], pos: &mut usize) -> (r: Result<
        StoryFrame,
        UserError,
    >)
        requires
            *old(pos) <= reader@.len(),
        ensures
            match story_frame_at(tag_buf@, reader@, *old(pos) as int) {
                FrameRead::Failed(f) => r matches Err(e) && reports_frame_failure(e, f),
                FrameRead::Frame(fr, next) => r matches Ok(frame) && frame@ == fr && *final(pos)
                    == next,
            },
            *final(pos) <= reader@.len(),
    {
        let (story_id, epic_id, name_len, description_len, status) = Story::decode(tag_buf);
        let status = match Status::try_from_byte(status) {
            Ok(s) => s,
            Err(_) => return Err(UserError::ParseFrameError(concat(
                "unable to parse status for story ",
                decimal_text(story_id).as_str(),
            ))),
        };
        let (name, description) = match read_texts_from(reader, pos, name_len, description_len, "Story Frame") {
            Ok(texts) => texts,
            Err(e) => return Err(e),
        };
        Ok(StoryFrame { id: story_id, epic_id, name, description, status })
    }

    /// Returns the id of the story.
    pub fn id(&self) -> (r: u32)
        ensures
            r == self@.id,
    {
        self.id
    }

    /// Returns the id of the epic that holds the story.
    pub fn epic_id(&self) -> (r: u32)
        ensures
            r == self@.epic_id,
    {
        self.epic_id
    }

    /// Returns the name of the story.
    pub fn name(&self) -> (r: &String)
        ensures
            r@ == self@.name,
    {
        &self.name
    }

    /// Returns the description of the story.
    pub fn description(&self) -> (r: &String)
        ensures
            r@ == self@.description,
    {
        &self.description
    }

    /// Returns the status of the story.
    pub fn status(&self) -> (r: Status)
        ensures
            r == self@.status,
    {
        self.status
    }
}

} // verus!

//! The pages of the client: the home page with the epics, the page of one epic with its
//! stories, and the page of one story. A page is read from the data of a response.

use vstd::prelude::*;
use crate::interface::frame::{
    epic_frame_at, reports_frame_failure, story_frame_at, EpicFrame, EpicFrameView, FrameFailure,
    FrameRead, StoryFrame, StoryFrameView,
};
use crate::interface::UserError;
use crate::models::{
    byte_len, epic_bytes, epic_header_bytes, epic_headers_bytes, epic_tag_bytes, epic_well_formed,
    is_key_order, lemma_read_le, lemma_stories_bytes_first, status_byte, stories_bytes,
    stories_in_order, story_bytes, story_tag_bytes, story_well_formed, EpicView, StoryView,
};
use crate::server::epic_bytes_of;
use crate::text::{chars_of, string_from_chars, utf8_bytes};
use crate::utils::{le_bytes, le_u32_of};

verus! {

/// What the interface does next, as a page decides it from what the user entered.
#[derive(Debug, PartialEq)]
pub enum Action {
    /// Leave the program.
    Quit,
    /// Go back to the previous page.
    PreviousPage,
    /// Show the current page again.
    Refresh,
    /// Send these bytes to the server as a request.
    RequestParsed(Vec<u8>),
}

impl Action {
    /// Returns whether the action is `Quit`.
    pub fn is_quit(&self) -> (r: bool)
        ensures
            r == (*self is Quit),
    {
        matches!(self, Action::Quit)
    }

    /// Returns whether the action is `PreviousPage`.
    pub fn is_previous_page(&self) -> (r: bool)
        ensures
            r == (*self is PreviousPage),
    {
        matches!(self, Action::PreviousPage)
    }

    /// Returns whether the action is `Refresh`.
    pub fn is_refresh(&self) -> (r: bool)
        ensures
            r == (*self is Refresh),
    {
        matches!(self, Action::Refresh)
    }

    /// Returns whether the action is a parsed request: none of the other actions.
    pub fn is_request_parsed(&self) -> (r: bool)
        ensures
            r == (*self is RequestParsed),
    {
        !(self.is_quit() || self.is_previous_page() || self.is_refresh())
    }
}

/// Copies the 13 bytes of `data` from `at` into a tag.
fn tag13_at(data: &[u8], at: usize) -> (t: [u8; 13])
    requires
        at + 13 <= data@.len(),
    ensures
        t@ == data@.subrange(at as int, at + 13),
{
    let mut t = [0u8; 13];
    let mut i: usize = 0;
    while i < 13
        invariant
            i <= 13,
            at + 13 <= data@.len(),
            data@.len() == data.len(),
            forall|j: int| 0 <= j < i ==> t@[j] == data@[at + j],
        decreases 13 - i,
    {
        t[i] = data[at + i];
        i = i + 1;
    }
    assert(t@ =~= data@.subrange(at as int, at + 13));
    t
}

/// Copies the 17 bytes of `data` from `at` into a tag.
fn tag17_at(data: &[u8], at: usize) -> (t: [u8; 17])
    requires
        at + 17 <= data@.len(),
    ensures
        t@ == data@.subrange(at as int, at + 17),
{
    let mut t = [0u8; 17];
    let mut i: usize = 0;
    while i < 17
        invariant
            i <= 17,
            at + 17 <= data@.len(),
            data@.len() == data.len(),
            forall|j: int| 0 <= j < i ==> t@[j] == data@[at + j],
        decreases 17 - i,
    {
        t[i] = data[at + i];
        i = i + 1;
    }
    assert(t@ =~= data@.subrange(at as int, at + 17));
    t
}

/// Reads epic frames from `p` to the end of `data`, each a 13-byte tag followed by the
/// epic's name and description.
pub open spec fn epic_frames_from(data: Seq<u8>, p: int) -> Result<Seq<EpicFrameView>, FrameFailure>
    decreases data.len() - p,
{
    if p >= data.len() {
        Ok(Seq::empty())
    } else if data.len() - p < 13 {
        Err(FrameFailure::Read)
    } else {
        match epic_frame_at(data.subrange(p, p + 13), data, p + 13) {
            FrameRead::Failed(f) => Err(f),
            FrameRead::Frame(frame, next) => {
                if p < next <= data.len() {
                    match epic_frames_from(data, next) {
                        Ok(rest) => Ok(seq![frame] + rest),
                        Err(f) => Err(f),
                    }
                } else {
                    Err(FrameFailure::Read)
                }
            },
        }
    }
}

/// Reads story frames from `p` to the end of `data`, each a 17-byte tag followed by the
/// story's name and description.
pub open spec fn story_frames_from(data: Seq<u8>, p: int) -> Result<Seq<StoryFrameView>, FrameFailure>
    decreases data.len() - p,
{
    if p >= data.len() {
        Ok(Seq::empty())
    } else if data.len() - p < 17 {
        Err(FrameFailure::Read)
    } else {
        match story_frame_at(data.subrange(p, p + 17), data, p + 17) {
            FrameRead::Failed(f) => Err(f),
            FrameRead::Frame(frame, next) => {
                if p < next <= data.len() {
                    match story_frames_from(data, next) {
                        Ok(rest) => Ok(seq![frame] + rest),
                        Err(f) => Err(f),
                    }
                } else {
                    Err(FrameFailure::Read)
                }
            },
        }
    }
}

/// Reads the data of an epic's page: the epic's frame, then the frames of its stories.
pub open spec fn epic_page_frames(data: Seq<u8>) -> Result<
    (EpicFrameView, Seq<StoryFrameView>),
    FrameFailure,
> {
    if data.len() < 13 {
        Err(FrameFailure::Read)
    } else {
        match epic_frame_at(data.subrange(0, 13), data, 13) {
            FrameRead::Failed(f) => Err(f),
            FrameRead::Frame(frame, next) => match story_frames_from(data, next) {
                Ok(stories) => Ok((frame, stories)),
                Err(f) => Err(f),
            },
        }
    }
}

/// Reads the data of a story's page: the story's frame, which must end the data.
pub open spec fn story_page_frame(data: Seq<u8>) -> Result<StoryFrameView, FrameFailure> {
    if data.len() < 17 {
        Err(FrameFailure::Read)
    } else {
        match story_frame_at(data.subrange(0, 17), data, 17) {
            FrameRead::Failed(f) => Err(f),
            FrameRead::Frame(frame, next) => if next == data.len() {
                Ok(frame)
            } else {
                Err(FrameFailure::Read)
            },
        }
    }
}

/// The views of a list of epic frames.
pub open spec fn epic_frame_views(v: Seq<EpicFrame>) -> Seq<EpicFrameView> {
    v.map_values(|f: EpicFrame| f@)
}

/// The views of a list of story frames.
pub open spec fn story_frame_views(v: Seq<StoryFrame>) -> Seq<StoryFrameView> {
    v.map_values(|f: StoryFrame| f@)
}

/// The first page the user sees: the frames of the epics of the database.
#[derive(Debug)]
pub struct HomePage {
    epic_frames: Vec<EpicFrame>,
}

/// The page of one epic: its frame and the frames of its stories.
#[derive(Debug)]
pub struct EpicDetailPage {
    frame: EpicFrame,
    story_frames: Vec<StoryFrame>,
}

/// The page of one story: its frame.
#[derive(Debug)]
pub struct StoryDetailPage {
    story_frame: StoryFrame,
}

impl View for HomePage {
    type V = Seq<EpicFrameView>;

    closed spec fn view(&self) -> Seq<EpicFrameView> {
        epic_frame_views(self.epic_frames@)
    }
}

impl View for EpicDetailPage {
    type V = (EpicFrameView, Seq<StoryFrameView>);

    closed spec fn view(&self) -> (EpicFrameView, Seq<StoryFrameView>) {
        (self.frame@, story_frame_views(self.story_frames@))
    }
}

impl View for StoryDetailPage {
    type V = StoryFrameView;

    closed spec fn view(&self) -> StoryFrameView {
        self.story_frame@
    }
}

impl HomePage {
    /// Reads a home page from `data`, the records of the epics one after the other.
    ///
    /// Fails with `ReadFrameError` when the data ends inside a record, and with
    /// `ParseFrameError` when a record holds a byte that is no status or text that is not
    /// UTF-8.
    pub fn try_create(data: Vec<u8>) -> (r: Result<HomePage, UserError>)
        ensures
            match epic_frames_from(data@, 0) {
                Ok(frames) => r matches Ok(page) && page@ == frames,
                Err(f) => r matches Err(e) && reports_frame_failure(e, f),
            },
    {
        let data_len = data.len();
        let mut pos: usize = 0;
        let mut epic_frames: Vec<EpicFrame> = Vec::new();
        while pos < data_len
            invariant
                data_len == data@.len(),
                pos <= data_len,
                match epic_frames_from(data@, pos as int) {
                    Ok(rest) => epic_frames_from(data@, 0) == Ok::<Seq<EpicFrameView>, FrameFailure>(
                        epic_frame_views(epic_frames@) + rest,
                    ),
                    Err(f) => epic_frames_from(data@, 0) == Err::<Seq<EpicFrameView>, FrameFailure>(f),
                },
            decreases data_len - pos,
        {
            if data_len - pos < 13 {
                return Err(UserError::ReadFrameError(
                    "unable to read frame from response data, data may not be formatted correctly".to_owned(),
                ));
            }
            let tag_buf = tag13_at(data.as_slice(), pos);
            let ghost before = pos;
            pos = pos + 13;
            let epic_frame = match EpicFrame::try_from_reader(&tag_buf, data.as_slice(), &mut pos) {
                Ok(frame) => frame,
                Err(e) => return Err(e),
            };
            proof {
                let ghost fs = epic_frame_views(epic_frames@);
                assert(epic_frame_views(epic_frames@.push(epic_frame)) =~= fs.push(epic_frame@));
                match epic_frames_from(data@, pos as int) {
                    Ok(rest) => {
                        assert(fs.push(epic_frame@) + rest =~= fs + (seq![epic_frame@] + rest));
                    },
                    Err(_) => {},
                }
            }
            epic_frames.push(epic_frame);
        }
        proof {
            assert(epic_frame_views(epic_frames@) + Seq::<EpicFrameView>::empty() =~= epic_frame_views(epic_frames@));
        }
        Ok(HomePage { epic_frames })
    }

    /// Returns the frames of the epics, in the order of the data they were read from.
    pub fn epic_frames(&self) -> (r: &Vec<EpicFrame>)
        ensures
            epic_frame_views(r@) == self@,
    {
        &self.epic_frames
    }
}

impl EpicDetailPage {
    /// Reads an epic's page from `data`: the epic's record, then the records of its stories.
    ///
    /// Fails with `ReadFrameError` when the data ends inside a record, and with
    /// `ParseFrameError` when a record holds a byte that is no status or text that is not
    /// UTF-8.
    pub fn try_create(data: Vec<u8>) -> (r: Result<EpicDetailPage, UserError>)
        ensures
            match epic_page_frames(data@) {
                Ok(frames) => r matches Ok(page) && page@ == frames,
                Err(f) => r matches Err(e) && reports_frame_failure(e, f),
            },
    {
        let data_len = data.len();
        if data_len < 13 {
            return Err(UserError::ReadFrameError(
                "unable to read EpicFrame from response data, data may not be formatted correctly".to_owned(),
            ));
        }
        let epic_tag_buf = tag13_at(data.as_slice(), 0);
        let mut pos: usize = 13;
        let frame = match EpicFrame::try_from_reader(&epic_tag_buf, data.as_slice(), &mut pos) {
            Ok(frame) => frame,
            Err(e) => return Err(e),
        };
        let ghost start = pos;
        let mut story_frames: Vec<StoryFrame> = Vec::new();
        while pos < data_len
            invariant
                data_len == data@.len(),
                pos <= data_len,
                data_len >= 13,
                epic_frame_at(data@.subrange(0, 13), data@, 13) == FrameRead::Frame(frame@, start as int),
                match story_frames_from(data@, pos as int) {
                    Ok(rest) => story_frames_from(data@, start as int) == Ok::<Seq<StoryFrameView>, FrameFailure>(
                        story_frame_views(story_frames@) + rest,
                    ),
                    Err(f) => story_frames_from(data@, start as int) == Err::<Seq<StoryFrameView>, FrameFailure>(f),
                },
            decreases data_len - pos,
        {
            if data_len - pos < 17 {
                return Err(UserError::ReadFrameError(
                    "error reading frame data from stream, data may not be formatted correctly".to_owned(),
                ));
            }
            let story_tag_buf = tag17_at(data.as_slice(), pos);
            pos = pos + 17;
            let story_frame = match StoryFrame::try_from_reader(&story_tag_buf, data.as_slice(), &mut pos) {
                Ok(frame) => frame,
                Err(e) => return Err(e),
            };
            proof {
                let ghost fs = story_frame_views(story_frames@);
                assert(story_frame_views(story_frames@.push(story_frame)) =~= fs.push(story_frame@));
                match story_frames_from(data@, pos as int) {
                    Ok(rest) => {
                        assert(fs.push(story_frame@) + rest =~= fs + (seq![story_frame@] + rest));
                    },
                    Err(_) => {},
                }
            }
            story_frames.push(story_frame);
        }
        proof {
            assert(story_frame_views(story_frames@) + Seq::<StoryFrameView>::empty() =~= story_frame_views(story_frames@));
        }
        Ok(EpicDetailPage { frame, story_frames })
    }

    /// Returns the frame of the epic.
    pub fn frame(&self) -> (r: &EpicFrame)
        ensures
            r@ == self@.0,
    {
        &self.frame
    }

    /// Returns the frames of the epic's stories, in the order of the data they were read from.
    pub fn story_frames(&self) -> (r: &Vec<StoryFrame>)
        ensures
            story_frame_views(r@) == self@.1,
    {
        &self.story_frames
    }
}

impl StoryDetailPage {
    /// Reads a story's page from `data`, which must hold the story's record and nothing else.
    ///
    /// Fails with `ReadFrameError` when the data ends inside the record or goes on after it,
    /// and with `ParseFrameError` when the record holds a byte that is no status or text that
    /// is not UTF-8.
    pub fn try_create(data: Vec<u8>) -> (r: Result<StoryDetailPage, UserError>)
        ensures
            match story_page_frame(data@) {
                Ok(frame) => r matches Ok(page) && page@ == frame,
                Err(f) => r matches Err(e) && reports_frame_failure(e, f),
            },
    {
        let data_len = data.len();
        if data_len < 17 {
            return Err(UserError::ReadFrameError(
                "unable to read story frame tag from response data, data may not have been formatted correctly".to_owned(),
            ));
        }
        let tag_buf = tag17_at(data.as_slice(), 0);
        let mut pos: usize = 17;
        let story_frame = match StoryFrame::try_from_reader(&tag_buf, data.as_slice(), &mut pos) {
            Ok(frame) => frame,
            Err(e) => return Err(e),
        };
        if pos != data_len {
            return Err(UserError::ReadFrameError(
                "error reading frame from response data, data may not have been formatted correctly".to_owned(),
            ));
        }
        Ok(StoryDetailPage { story_frame })
    }

    /// Returns the frame of the story.
    pub fn story_frame(&self) -> (r: &StoryFrame)
        ensures
            r@ == self@,
    {
        &self.story_frame
    }
}

/// The frame a client shows of an epic.
pub open spec fn epic_frame_of(e: EpicView) -> EpicFrameView {
    EpicFrameView { id: e.id, name: e.name, description: e.description, status: e.status }
}

/// The frame a client shows of a story.
pub open spec fn story_frame_of(s: StoryView) -> StoryFrameView {
    StoryFrameView {
        id: s.id,
        epic_id: s.epic_id,
        name: s.name,
        description: s.description,
        status: s.status,
    }
}

/// A story's record stored at `p` reads back as the story's frame.
#[verifier::rlimit(60)]
proof fn lemma_story_frame_record(bytes: Seq<u8>, p: int, s: StoryView)
    requires
        0 <= p,
        p + story_bytes(s).len() <= bytes.len(),
        bytes.subrange(p, p + story_bytes(s).len()) == story_bytes(s),
        byte_len(s.name) <= u32::MAX,
        byte_len(s.description) <= u32::MAX,
    ensures
        p + 17 <= bytes.len(),
        story_bytes(s).len() >= 17,
        story_frame_at(bytes.subrange(p, p + 17), bytes, p + 17) == FrameRead::Frame(
            story_frame_of(s),
            p + story_bytes(s).len(),
        ),
{
    broadcast use vstd::utf8::encode_utf8_valid_utf8, vstd::utf8::encode_utf8_decode_utf8;

    reveal(story_bytes);
    let sb = story_bytes(s);
    let tb = story_tag_bytes(s);
    let nl = byte_len(s.name) as int;
    let dl = byte_len(s.description) as int;
    assert(tb.len() == 17);
    assert(sb.len() == 17 + nl + dl);
    let tag = bytes.subrange(p, p + 17);
    assert(tag =~= tb) by {
        assert(tag =~= sb.subrange(0, 17));
        assert(sb.subrange(0, 17) =~= tb);
    }
    assert(tag.subrange(0, 4) =~= le_bytes(s.id));
    assert(tag.subrange(4, 8) =~= le_bytes(s.epic_id));
    assert(tag.subrange(8, 12) =~= le_bytes(nl as u32));
    assert(tag.subrange(12, 16) =~= le_bytes(dl as u32));
    lemma_read_le(tag, 0, s.id);
    assert(le_u32_of(tag) == le_u32_of(tag.subrange(0, 4)));
    lemma_read_le(tag, 4, s.epic_id);
    lemma_read_le(tag, 8, nl as u32);
    lemma_read_le(tag, 12, dl as u32);
    assert(tag[16] == status_byte(s.status));
    assert(bytes.subrange(p + 17, p + 17 + nl) =~= utf8_bytes(s.name)) by {
        assert(bytes.subrange(p + 17, p + 17 + nl) =~= sb.subrange(17, 17 + nl));
    }
    assert(bytes.subrange(p + 17 + nl, p + 17 + nl + dl) =~= utf8_bytes(s.description)) by {
        assert(bytes.subrange(p + 17 + nl, p + 17 + nl + dl) =~= sb.subrange(17 + nl, 17 + nl + dl));
    }
}

/// An epic's record (tag, name and description) stored at `p` reads back as the epic's
/// frame.
#[verifier::rlimit(60)]
proof fn lemma_epic_frame_record(bytes: Seq<u8>, p: int, e: EpicView)
    requires
        0 <= p,
        p + epic_header_bytes(e).len() <= bytes.len(),
        bytes.subrange(p, p + epic_header_bytes(e).len()) == epic_header_bytes(e),
        byte_len(e.name) <= u32::MAX,
        byte_len(e.description) <= u32::MAX,
    ensures
        p + 13 <= bytes.len(),
        epic_header_bytes(e).len() >= 13,
        epic_frame_at(bytes.subrange(p, p + 13), bytes, p + 13) == FrameRead::Frame(
            epic_frame_of(e),
            p + epic_header_bytes(e).len(),
        ),
{
    broadcast use vstd::utf8::encode_utf8_valid_utf8, vstd::utf8::encode_utf8_decode_utf8;

    reveal(epic_header_bytes);
    let hb = epic_header_bytes(e);
    let tb = epic_tag_bytes(e);
    let nl = byte_len(e.name) as int;
    let dl = byte_len(e.description) as int;
    assert(tb.len() == 13);
    assert(hb.len() == 13 + nl + dl);
    let tag = bytes.subrange(p, p + 13);
    assert(tag =~= tb) by {
        assert(tag =~= hb.subrange(0, 13));
        assert(hb.subrange(0, 13) =~= tb);
    }
    assert(tag.subrange(0, 4) =~= le_bytes(e.id));
    assert(tag.subrange(4, 8) =~= le_bytes(nl as u32));
    assert(tag.subrange(8, 12) =~= le_bytes(dl as u32));
    lemma_read_le(tag, 0, e.id);
    assert(le_u32_of(tag) == le_u32_of(tag.subrange(0, 4)));
    lemma_read_le(tag, 4, nl as u32);
    lemma_read_le(tag, 8, dl as u32);
    assert(tag[12] == status_byte(e.status));
    assert(bytes.subrange(p + 13, p + 13 + nl) =~= utf8_bytes(e.name)) by {
        assert(bytes.subrange(p + 13, p + 13 + nl) =~= hb.subrange(13, 13 + nl));
    }
    assert(bytes.subrange(p + 13 + nl, p + 13 + nl + dl) =~= utf8_bytes(e.description)) by {
        assert(bytes.subrange(p + 13 + nl, p + 13 + nl + dl) =~= hb.subrange(13 + nl, 13 + nl + dl));
    }
}

/// The story records of `ks`, stored from `p` to the end of `bytes`, read back as the frames
/// of those stories, in order.
proof fn lemma_story_frames_records(bytes: Seq<u8>, p: int, m: Map<u32, StoryView>, ks: Seq<u32>, epic_id: u32)
    requires
        0 <= p <= bytes.len(),
        bytes.subrange(p, bytes.len() as int) == stories_bytes(m, ks),
        forall|i: int| 0 <= i < ks.len() ==> m.contains_key(#[trigger] ks[i]),
        forall|k: u32| #[trigger] m.contains_key(k) ==> story_well_formed(m[k], k, epic_id),
    ensures
        story_frames_from(bytes, p) == Ok::<Seq<StoryFrameView>, FrameFailure>(
            stories_in_order(m, ks).map_values(|s: StoryView| story_frame_of(s)),
        ),
    decreases ks.len(),
{
    if ks.len() == 0 {
        assert(stories_bytes(m, ks) =~= Seq::<u8>::empty());
        assert(bytes.subrange(p, bytes.len() as int).len() == 0);
        assert(stories_in_order(m, ks).map_values(|s: StoryView| story_frame_of(s)) =~= Seq::<StoryFrameView>::empty());
    } else {
        lemma_stories_bytes_first(m, ks);
        let s = m[ks[0]];
        assert(m.contains_key(ks[0]));
        assert(story_well_formed(s, ks[0], epic_id));
        let len = story_bytes(s).len();
        let rest = bytes.subrange(p, bytes.len() as int);
        assert(rest == story_bytes(s) + stories_bytes(m, ks.drop_first()));
        assert(bytes.subrange(p, p + len) =~= rest.subrange(0, len as int));
        assert(rest.subrange(0, len as int) =~= story_bytes(s));
        lemma_story_frame_record(bytes, p, s);
        assert(bytes.subrange(p + len, bytes.len() as int) =~= rest.subrange(len as int, rest.len() as int));
        assert(bytes.subrange(p + len, bytes.len() as int) =~= stories_bytes(m, ks.drop_first()));
        assert forall|i: int| 0 <= i < ks.drop_first().len() implies m.contains_key(#[trigger] ks.drop_first()[i]) by {
            assert(ks.drop_first()[i] == ks[i + 1]);
        }
        lemma_story_frames_records(bytes, p + len, m, ks.drop_first(), epic_id);
        assert(stories_in_order(m, ks).map_values(|s: StoryView| story_frame_of(s)) =~= seq![story_frame_of(s)]
            + stories_in_order(m, ks.drop_first()).map_values(|s: StoryView| story_frame_of(s)));
    }
}

/// The records of the epics of a list start with that of its first epic.
proof fn lemma_epic_headers_bytes_first(m: Map<u32, EpicView>, ks: Seq<u32>)
    requires
        ks.len() > 0,
    ensures
        epic_headers_bytes(m, ks) == epic_header_bytes(m[ks[0]]) + epic_headers_bytes(m, ks.drop_first()),
    decreases ks.len(),
{
    if ks.len() == 1 {
        assert(ks.drop_last().len() == 0);
        assert(ks.drop_first().len() == 0);
        assert(epic_headers_bytes(m, ks.drop_last()) =~= Seq::<u8>::empty());
        assert(epic_headers_bytes(m, ks.drop_first()) =~= Seq::<u8>::empty());
        assert(ks.last() == ks[0]);
        assert(epic_headers_bytes(m, ks) =~= epic_header_bytes(m[ks[0]]));
    } else {
        lemma_epic_headers_bytes_first(m, ks.drop_last());
        assert(ks.drop_last().drop_first() =~= ks.drop_first().drop_last());
        assert(ks.drop_first().last() == ks.last());
        assert(epic_headers_bytes(m, ks) =~= epic_header_bytes(m[ks[0]]) + epic_headers_bytes(m, ks.drop_first()));
    }
}

/// The epic records of `ks`, stored from `p` to the end of `bytes`, read back as the frames of
/// those epics, in order.
proof fn lemma_epic_frames_records(bytes: Seq<u8>, p: int, m: Map<u32, EpicView>, ks: Seq<u32>)
    requires
        0 <= p <= bytes.len(),
        bytes.subrange(p, bytes.len() as int) == epic_headers_bytes(m, ks),
        forall|i: int| 0 <= i < ks.len() ==> m.contains_key(#[trigger] ks[i]),
        forall|k: u32| #[trigger] m.contains_key(k) ==> byte_len(m[k].name) <= u32::MAX && byte_len(m[k].description) <= u32::MAX,
    ensures
        epic_frames_from(bytes, p) == Ok::<Seq<EpicFrameView>, FrameFailure>(
            ks.map_values(|k: u32| epic_frame_of(m[k])),
        ),
    decreases ks.len(),
{
    if ks.len() == 0 {
        assert(epic_headers_bytes(m, ks) =~= Seq::<u8>::empty());
        assert(bytes.subrange(p, bytes.len() as int).len() == 0);
        assert(ks.map_values(|k: u32| epic_frame_of(m[k])) =~= Seq::<EpicFrameView>::empty());
    } else {
        lemma_epic_headers_bytes_first(m, ks);
        let e = m[ks[0]];
        assert(m.contains_key(ks[0]));
        let len = epic_header_bytes(e).len();
        let rest = bytes.subrange(p, bytes.len() as int);
        assert(rest == epic_header_bytes(e) + epic_headers_bytes(m, ks.drop_first()));
        assert(bytes.subrange(p, p + len) =~= rest.subrange(0, len as int));
        assert(rest.subrange(0, len as int) =~= epic_header_bytes(e));
        lemma_epic_frame_record(bytes, p, e);
        assert(bytes.subrange(p + len, bytes.len() as int) =~= rest.subrange(len as int, rest.len() as int));
        assert(bytes.subrange(p + len, bytes.len() as int) =~= epic_headers_bytes(m, ks.drop_first()));
        assert forall|i: int| 0 <= i < ks.drop_first().len() implies m.contains_key(#[trigger] ks.drop_first()[i]) by {
            assert(ks.drop_first()[i] == ks[i + 1]);
        }
        lemma_epic_frames_records(bytes, p + len, m, ks.drop_first());
        assert(ks.map_values(|k: u32| epic_frame_of(m[k])) =~= seq![epic_frame_of(e)]
            + ks.drop_first().map_values(|k: u32| epic_frame_of(m[k])));
    }
}

/// The bytes of a story read as a story page show the story: its id, epic id, name,
/// description and status, for a name and a description of at most `u32::MAX` bytes each.
pub proof fn lemma_story_page_reads_story_bytes(s: StoryView)
    requires
        byte_len(s.name) <= u32::MAX,
        byte_len(s.description) <= u32::MAX,
    ensures
        story_page_frame(story_bytes(s)) == Ok::<StoryFrameView, FrameFailure>(story_frame_of(s)),
{
    let b = story_bytes(s);
    assert(b.subrange(0, b.len() as int) =~= b);
    lemma_story_frame_record(b, 0, s);
}

/// The bytes of a well-formed epic, in whatever order its stories were written, read as an
/// epic page show the epic and the frames of its stories in that order.
pub proof fn lemma_epic_page_reads_epic_bytes(e: EpicView, ks: Seq<u32>)
    requires
        epic_well_formed(e),
        is_key_order(e.stories, ks),
    ensures
        epic_page_frames(epic_bytes(e, ks)) == Ok::<(EpicFrameView, Seq<StoryFrameView>), FrameFailure>(
            (
                epic_frame_of(e),
                stories_in_order(e.stories, ks).map_values(|s: StoryView| story_frame_of(s)),
            ),
        ),
{
    let b = epic_bytes(e, ks);
    let hb = epic_header_bytes(e);
    assert(b.subrange(0, hb.len() as int) =~= hb);
    lemma_epic_frame_record(b, 0, e);
    assert(b.subrange(hb.len() as int, b.len() as int) =~= stories_bytes(e.stories, ks));
    assert forall|i: int| 0 <= i < ks.len() implies e.stories.contains_key(#[trigger] ks[i]) by {
        assert(ks.to_set().contains(ks[i]));
    }
    lemma_story_frames_records(b, hb.len() as int, e.stories, ks, e.id);
}

/// The records of the epics of a database, in whatever order they were written, read as a
/// home page show the frames of those epics in that order, for names and descriptions of at
/// most `u32::MAX` bytes each.
pub proof fn lemma_home_page_reads_db_bytes(epics: Map<u32, EpicView>, ks: Seq<u32>)
    requires
        is_key_order(epics, ks),
        forall|k: u32| #[trigger] epics.contains_key(k) ==> byte_len(epics[k].name) <= u32::MAX
            && byte_len(epics[k].description) <= u32::MAX,
    ensures
        epic_frames_from(epic_headers_bytes(epics, ks), 0) == Ok::<Seq<EpicFrameView>, FrameFailure>(
            ks.map_values(|k: u32| epic_frame_of(epics[k])),
        ),
{
    let b = epic_headers_bytes(epics, ks);
    assert(b.subrange(0, b.len() as int) =~= b);
    assert forall|i: int| 0 <= i < ks.len() implies epics.contains_key(#[trigger] ks[i]) by {
        assert(ks.to_set().contains(ks[i]));
    }
    lemma_epic_frames_records(b, 0, epics, ks);
}

/// Epic records followed by fewer bytes than a tag, but at least one, fail to read.
proof fn lemma_epic_frames_records_then_short(
    bytes: Seq<u8>,
    p: int,
    m: Map<u32, EpicView>,
    ks: Seq<u32>,
    extra: Seq<u8>,
)
    requires
        0 <= p <= bytes.len(),
        1 <= extra.len() < 13,
        bytes.subrange(p, bytes.len() as int) == epic_headers_bytes(m, ks) + extra,
        forall|i: int| 0 <= i < ks.len() ==> m.contains_key(#[trigger] ks[i]),
        forall|k: u32| #[trigger] m.contains_key(k) ==> byte_len(m[k].name) <= u32::MAX && byte_len(m[k].description) <= u32::MAX,
    ensures
        epic_frames_from(bytes, p) == Err::<Seq<EpicFrameView>, FrameFailure>(FrameFailure::Read),
    decreases ks.len(),
{
    if ks.len() == 0 {
        assert(epic_headers_bytes(m, ks) =~= Seq::<u8>::empty());
        assert(bytes.subrange(p, bytes.len() as int) =~= extra);
    } else {
        lemma_epic_headers_bytes_first(m, ks);
        let e = m[ks[0]];
        assert(m.contains_key(ks[0]));
        let len = epic_header_bytes(e).len();
        let rest = bytes.subrange(p, bytes.len() as int);
        assert(rest =~= epic_header_bytes(e) + (epic_headers_bytes(m, ks.drop_first()) + extra));
        assert(bytes.subrange(p, p + len) =~= rest.subrange(0, len as int));
        assert(rest.subrange(0, len as int) =~= epic_header_bytes(e));
        lemma_epic_frame_record(bytes, p, e);
        assert(bytes.subrange(p + len, bytes.len() as int) =~= rest.subrange(len as int, rest.len() as int));
        assert(bytes.subrange(p + len, bytes.len() as int) =~= epic_headers_bytes(m, ks.drop_first()) + extra);
        assert forall|i: int| 0 <= i < ks.drop_first().len() implies m.contains_key(#[trigger] ks.drop_first()[i]) by {
            assert(ks.drop_first()[i] == ks[i + 1]);
        }
        lemma_epic_frames_records_then_short(bytes, p + len, m, ks.drop_first(), extra);
    }
}

/// The records of the epics of a database followed by one to twelve more bytes, fewer than an
/// epic's tag, do not read as a home page: reading them fails as data that ends inside a
/// record. Names and descriptions are at most `u32::MAX` bytes each.
pub proof fn lemma_home_page_refuses_trailing_bytes(
    epics: Map<u32, EpicView>,
    ks: Seq<u32>,
    extra: Seq<u8>,
)
    requires
        is_key_order(epics, ks),
        forall|k: u32| #[trigger] epics.contains_key(k) ==> byte_len(epics[k].name) <= u32::MAX
            && byte_len(epics[k].description) <= u32::MAX,
        1 <= extra.len() <= 12,
    ensures
        epic_frames_from(epic_headers_bytes(epics, ks) + extra, 0) == Err::<Seq<EpicFrameView>, FrameFailure>(
            FrameFailure::Read,
        ),
{
    let b = epic_headers_bytes(epics, ks) + extra;
    assert(b.subrange(0, b.len() as int) =~= b);
    assert forall|i: int| 0 <= i < ks.len() implies epics.contains_key(#[trigger] ks[i]) by {
        assert(ks.to_set().contains(ks[i]));
    }
    lemma_epic_frames_records_then_short(b, 0, epics, ks, extra);
}

/// What the server sends is what the client's pages read: the records of the epics of a
/// database, in whatever order the server sent them, read as a home page with the frames of
/// those epics in that order; and the bytes of a well-formed epic as the page of that epic with
/// the frames of its stories in the order sent. Names and descriptions are at most `u32::MAX`
/// bytes each.
pub proof fn lemma_pages_read_what_the_server_sends(
    epics: Map<u32, EpicView>,
    records: Seq<u8>,
    e: EpicView,
    epic_data: Seq<u8>,
)
    requires
        forall|k: u32| #[trigger] epics.contains_key(k) ==> byte_len(epics[k].name) <= u32::MAX
            && byte_len(epics[k].description) <= u32::MAX,
        exists|ks: Seq<u32>| #[trigger] is_key_order(epics, ks) && records == epic_headers_bytes(epics, ks),
        epic_well_formed(e),
        epic_bytes_of(e, epic_data),
    ensures
        exists|ks: Seq<u32>| #[trigger] is_key_order(epics, ks) && epic_frames_from(records, 0) == Ok::<Seq<EpicFrameView>, FrameFailure>(
            ks.map_values(|k: u32| epic_frame_of(epics[k])),
        ),
        exists|ks: Seq<u32>| #[trigger] is_key_order(e.stories, ks) && epic_page_frames(epic_data) == Ok::<(EpicFrameView, Seq<StoryFrameView>), FrameFailure>(
            (
                epic_frame_of(e),
                stories_in_order(e.stories, ks).map_values(|s: StoryView| story_frame_of(s)),
            ),
        ),
{
    let ks = choose|ks: Seq<u32>| #[trigger] is_key_order(epics, ks) && records == epic_headers_bytes(epics, ks);
    lemma_home_page_reads_db_bytes(epics, ks);
    let ks2 = choose|ks: Seq<u32>| #[trigger] is_key_order(e.stories, ks) && epic_data == epic_bytes(e, ks);
    lemma_epic_page_reads_epic_bytes(e, ks2);
}

/// The display width, in columns, that `unicode_width` gives a string.
pub uninterp spec fn display_width(s: Seq<char>) -> usize;

/// The display width, in columns, that `unicode_width` gives a character, `None` for a
/// control character.
pub uninterp spec fn char_display_width(c: char) -> Option<usize>;

/// Returns the display width of `s`, by `unicode_width::UnicodeWidthStr::width`, which sums
/// the widths of the characters with some adjustments for character sequences; what it
/// returns is a function of the characters of `s` and is only named here.
#[verifier::external_body]
fn str_display_width(s: &str) -> (w: usize)
    ensures
        w == display_width(s@),
{
    unicode_width::UnicodeWidthStr::width(s)
}

/// Returns the display width of `c`, by `unicode_width::UnicodeWidthChar::width`. Its source
/// answers `None` for the control characters below U+0020 and from U+007F to U+009F, one
/// column for the other ASCII characters, and a width from its tables for the characters from
/// U+00A0 on; that width is only named here.
#[verifier::external_body]
fn char_width(c: char) -> (w: Option<usize>)
    ensures
        w == char_display_width(c),
        (c < '\u{20}' || ('\u{7f}' <= c && c < '\u{a0}')) ==> w is None,
        ('\u{20}' <= c && c < '\u{7f}') ==> w == Some(1usize),
        c >= '\u{a0}' ==> w is Some,
{
    unicode_width::UnicodeWidthChar::width(c)
}

/// How a character is shown in abridged text, with its width: a control character is shown as
/// U+FFFD, one column wide.
pub open spec fn shown_char(c: char) -> (int, char) {
    match char_display_width(c) {
        Some(w) => (w as int, c),
        None => (1, '\u{fffd}'),
    }
}

/// The characters of `cs`, as they are shown, for as long as their widths add up to at most
/// `budget` columns.
pub open spec fn abridged(cs: Seq<char>, budget: int) -> Seq<char>
    decreases cs.len(),
{
    if cs.len() == 0 {
        Seq::empty()
    } else {
        let (w, c) = shown_char(cs[0]);
        if w <= budget {
            seq![c] + abridged(cs.drop_first(), budget - w)
        } else {
            Seq::empty()
        }
    }
}

/// `s` followed by spaces up to `width` characters.
pub open spec fn pad_to(s: Seq<char>, width: int) -> Seq<char> {
    if s.len() < width {
        s + Seq::new((width - s.len()) as nat, |i: int| ' ')
    } else {
        s
    }
}

/// The characters of `cs` as they are shown: each control character as U+FFFD.
pub open spec fn shown_text(cs: Seq<char>) -> Seq<char> {
    cs.map_values(|c: char| shown_char(c).1)
}

/// `text` justified in `width` columns: padded with spaces when its display width fits,
/// otherwise cut to the characters that fit before an ellipsis, which follows them. Either
/// way each control character is shown as U+FFFD.
pub open spec fn justified(width: int, text: Seq<char>) -> Seq<char> {
    if display_width(text) > width {
        pad_to(abridged(text, width - 3) + "..."@, width)
    } else {
        pad_to(shown_text(text), width)
    }
}

/// Returns the characters of `cs` as they are shown: each control character as U+FFFD.
fn shown_chars(cs: &Vec<char>) -> (r: Vec<char>)
    ensures
        r@ == shown_text(cs@),
{
    let mut r: Vec<char> = Vec::new();
    let mut i: usize = 0;
    while i < cs.len()
        invariant
            i <= cs@.len(),
            r@ == shown_text(cs@.take(i as int)),
        decreases cs@.len() - i,
    {
        let c = match char_width(cs[i]) {
            Some(_) => cs[i],
            None => '\u{fffd}',
        };
        r.push(c);
        i = i + 1;
        assert(r@ =~= shown_text(cs@.take(i as int)));
    }
    assert(cs@.take(i as int) =~= cs@);
    r
}

/// The columns that the characters kept by `abridged(cs, budget)` take, each counted as it is
/// shown.
pub open spec fn abridged_columns(cs: Seq<char>, budget: int) -> int
    decreases cs.len(),
{
    if cs.len() == 0 {
        0
    } else {
        let (w, c) = shown_char(cs[0]);
        if w <= budget {
            w + abridged_columns(cs.drop_first(), budget - w)
        } else {
            0
        }
    }
}

/// Abridged text keeps characters only while they fit: they take at most `budget` columns,
/// and there are no more of them than characters in `cs`.
pub proof fn lemma_abridged_fits(cs: Seq<char>, budget: int)
    requires
        budget >= 0,
    ensures
        0 <= abridged_columns(cs, budget) <= budget,
        abridged(cs, budget).len() <= cs.len(),
    decreases cs.len(),
{
    if cs.len() > 0 {
        let (w, c) = shown_char(cs[0]);
        if w <= budget {
            lemma_abridged_fits(cs.drop_first(), budget - w);
        }
    }
}

/// Whether `c` can stand in shown text: U+FFFD, or a character that has a display width,
/// that is, no control character.
pub open spec fn is_shown(c: char) -> bool {
    c == '\u{fffd}' || char_display_width(c) is Some
}

/// Every character of abridged text can stand in shown text.
pub proof fn lemma_abridged_shown(cs: Seq<char>, budget: int)
    ensures
        forall|i: int| 0 <= i < abridged(cs, budget).len() ==> is_shown(#[trigger] abridged(cs, budget)[i]),
    decreases cs.len(),
{
    if cs.len() > 0 {
        let (w, c) = shown_char(cs[0]);
        if w <= budget {
            lemma_abridged_shown(cs.drop_first(), budget - w);
            let a = abridged(cs, budget);
            let rest = abridged(cs.drop_first(), budget - w);
            assert(a == seq![c] + rest);
            assert forall|i: int| 0 <= i < a.len() implies is_shown(#[trigger] a[i]) by {
                if i > 0 {
                    assert(a[i] == rest[i - 1]);
                }
            }
        }
    }
}

/// Justified text is at least `width` characters long, and each character in it is a space,
/// a dot of the ellipsis, or a character that can stand in shown text: no control character
/// is kept. Text whose display width fits is kept as it is shown, followed by spaces; other
/// text keeps characters that take at most `width - 3` columns, followed by an ellipsis.
pub proof fn lemma_justified_fits(width: int, text: Seq<char>)
    requires
        width > 3,
    ensures
        justified(width, text).len() >= width,
        forall|i: int|
            0 <= i < justified(width, text).len() ==> {
                let c = #[trigger] justified(width, text)[i];
                c == ' ' || c == '.' || is_shown(c)
            },
        display_width(text) <= width ==> justified(width, text).take(text.len() as int)
            == shown_text(text),
        display_width(text) > width ==> {
            &&& justified(width, text).take((abridged(text, width - 3).len() + 3) as int) == abridged(
                text,
                width - 3,
            ) + "..."@
            &&& abridged_columns(text, width - 3) <= width - 3
        },
{
    reveal_strlit("...");
    lemma_abridged_fits(text, width - 3);
    let j = justified(width, text);
    if display_width(text) > width {
        let ab = abridged(text, width - 3);
        let a = ab + "..."@;
        lemma_abridged_shown(text, width - 3);
        assert(pad_to(a, width).take(a.len() as int) =~= a);
        assert forall|i: int| 0 <= i < j.len() implies {
            let c = #[trigger] j[i];
            c == ' ' || c == '.' || is_shown(c)
        } by {
            if i < ab.len() {
                assert(j[i] == ab[i]);
            } else if i < a.len() {
                assert(j[i] == "..."@[i - ab.len()]);
            }
        }
    } else {
        let t = shown_text(text);
        assert(pad_to(t, width).take(text.len() as int) =~= t);
        assert forall|i: int| 0 <= i < j.len() implies {
            let c = #[trigger] j[i];
            c == ' ' || c == '.' || is_shown(c)
        } by {
            if i < t.len() {
                assert(j[i] == shown_char(text[i]).1);
            }
        }
    }
}

/// Returns the characters of `cs` followed by spaces up to `width` characters.
fn pad_chars(cs: Vec<char>, width: usize) -> (s: String)
    ensures
        s@ == pad_to(cs@, width as int),
{
    let mut out = cs;
    let ghost start = out@;
    assert(out@ =~= start + Seq::new(0, |i: int| ' '));
    while out.len() < width
        invariant
            out@.len() >= start.len(),
            out@ == start + Seq::new((out@.len() - start.len()) as nat, |i: int| ' '),
            out@.len() <= width || out@.len() == start.len(),
        decreases width - out@.len(),
    {
        out.push(' ');
        assert(out@ =~= start + Seq::new((out@.len() - start.len()) as nat, |i: int| ' '));
    }
    proof {
        if start.len() >= width {
            assert(out@.len() == start.len());
            assert(out@ =~= start);
        }
    }
    string_from_chars(out.as_slice())
}

/// Justifies `text` in `width` columns: when its display width fits, it is padded with
/// spaces to `width` characters; otherwise it is cut to as many characters as fit before an
/// ellipsis, which follows them, and padded likewise. A control character in the text is
/// replaced by U+FFFD.
pub fn justify_text_with_ellipses(width: usize, text: &String) -> (r: String)
    requires
        width > 3,
    ensures
        r@ == justified(width as int, text@),
{
    let text_width = str_display_width(text.as_str());
    if text_width > width {
        let text_chars = chars_of(text.as_str());
        let mut abridged_text: Vec<char> = Vec::new();
        let mut budget: usize = width - 3;
        let mut i: usize = 0;
        assert(text_chars@.skip(0) =~= text_chars@);
        assert(abridged_text@ + abridged(text_chars@, budget as int) =~= abridged(text_chars@, budget as int));
        while i < text_chars.len()
            invariant
                i <= text_chars@.len(),
                budget <= width - 3,
                abridged(text_chars@, width - 3) == abridged_text@ + abridged(
                    text_chars@.skip(i as int),
                    budget as int,
                ),
            ensures
                abridged(text_chars@.skip(i as int), budget as int) == Seq::<char>::empty(),
            decreases text_chars@.len() - i,
        {
            let (char_width, c) = match char_width(text_chars[i]) {
                Some(w) => (w, text_chars[i]),
                None => (1usize, '\u{fffd}'),
            };
            let ghost rest = text_chars@.skip(i as int);
            assert(rest[0] == text_chars@[i as int]);
            if char_width <= budget {
                let ghost before = abridged_text@;
                budget = budget - char_width;
                abridged_text.push(c);
                i = i + 1;
                assert(rest.drop_first() =~= text_chars@.skip(i as int));
                assert(abridged_text@ =~= before + seq![c]);
                if i == text_chars.len() {
                    assert(text_chars@.skip(i as int).len() == 0);
                }
            } else {
                break;
            }
        }
        assert(abridged_text@ + abridged(text_chars@.skip(i as int), budget as int) =~= abridged_text@);
        abridged_text.push('.');
        abridged_text.push('.');
        abridged_text.push('.');
        proof {
            reveal_strlit("...");
        }
        pad_chars(abridged_text, width)
    } else {
        pad_chars(shown_chars(&chars_of(text.as_str())), width)
    }
}

} // verus!

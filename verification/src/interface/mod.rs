//! The client's side: the frames and pages it reads from the server's responses, the
//! requests it builds from what the user enters, and the stack of pages it navigates.

pub mod frame;
pub mod pages;
pub mod requests;

use vstd::prelude::*;
use crate::interface::frame::{reports_frame_failure, EpicFrameView, StoryFrameView};
use crate::interface::pages::{
    epic_frames_from, epic_page_frames, story_page_frame, EpicDetailPage, HomePage,
    StoryDetailPage,
};
use crate::interface::requests::{epic_request_step, home_request_step, story_request_step, Step};
use crate::models::BytesEncode;
use crate::response::{decoded_tag, Response};
use crate::text::{concat, decimal_chars, decimal_text, text_with_number};

verus! {

/// An error that the client shows to its user.
#[derive(Debug)]
pub enum UserError {
    /// The connection to the server failed.
    ServerConnection(String),
    /// A response from the server could not be parsed.
    ParseResponseError(String),
    /// A frame could not be read.
    ReadFrameError(String),
    /// A frame could not be parsed.
    ParseFrameError(String),
    /// The server answered in a way it never should.
    InternalServerError,
    /// The option the user entered could not be read.
    ParseRequestOption,
    /// The option the user entered names no request.
    InvalidRequest,
    /// What the user entered cannot be sent.
    InvalidInput(String),
    /// What the user entered could not be read.
    ParseInputError,
}

/// The text by which an error is shown to the user.
pub open spec fn user_error_text(e: UserError) -> Seq<char> {
    match e {
        UserError::ServerConnection(s) => s@,
        UserError::ParseResponseError(s) => s@,
        UserError::ReadFrameError(s) => s@,
        UserError::ParseFrameError(s) => s@,
        UserError::InternalServerError => "An internal server error occurred, please try again"@,
        UserError::ParseRequestOption => "Unable to parse entered option, please try again"@,
        UserError::InvalidRequest => "Invalid request, please choose a valid option"@,
        UserError::InvalidInput(s) => s@,
        UserError::ParseInputError => "Unable to parse input, please try again"@,
    }
}

impl UserError {
    /// Returns the text by which the error is shown to the user.
    pub fn message(&self) -> (s: String)
        ensures
            s@ == user_error_text(*self),
    {
        match self {
            UserError::ServerConnection(s) => s.clone(),
            UserError::ParseResponseError(s) => s.clone(),
            UserError::ReadFrameError(s) => s.clone(),
            UserError::ParseFrameError(s) => s.clone(),
            UserError::InternalServerError => "An internal server error occurred, please try again".to_owned(),
            UserError::ParseRequestOption => "Unable to parse entered option, please try again".to_owned(),
            UserError::InvalidRequest => "Invalid request, please choose a valid option".to_owned(),
            UserError::InvalidInput(s) => s.clone(),
            UserError::ParseInputError => "Unable to parse input, please try again".to_owned(),
        }
    }
}

/// A page of the client.
#[derive(Debug)]
pub enum Page {
    Home(HomePage),
    EpicDetail(EpicDetailPage),
    StoryDetail(StoryDetailPage),
}

/// What a page shows.
pub enum PageView {
    Home(Seq<EpicFrameView>),
    EpicDetail(EpicFrameView, Seq<StoryFrameView>),
    StoryDetail(StoryFrameView),
}

impl View for Page {
    type V = PageView;

    open spec fn view(&self) -> PageView {
        match self {
            Page::Home(p) => PageView::Home(p@),
            Page::EpicDetail(p) => PageView::EpicDetail(p@.0, p@.1),
            Page::StoryDetail(p) => PageView::StoryDetail(p@),
        }
    }
}

/// The step after the user picked `option` on a page.
pub open spec fn page_request_step(page: PageView, request_option: Seq<char>, r: Step) -> bool {
    match page {
        PageView::Home(_) => home_request_step(request_option, r),
        PageView::EpicDetail(e, _) => epic_request_step(e.id, request_option, r),
        PageView::StoryDetail(s) => story_request_step(s.epic_id, s.id, request_option, r),
    }
}

impl Page {
    /// Handles the option the user picked on this page.
    pub fn parse_request(&self, request_option: &str) -> (r: Step)
        ensures
            page_request_step(self@, request_option@, r),
    {
        match self {
            Page::Home(p) => p.parse_request(request_option),
            Page::EpicDetail(p) => p.parse_request(request_option),
            Page::StoryDetail(p) => p.parse_request(request_option),
        }
    }
}

/// The views of a stack of pages.
pub open spec fn page_views(v: Seq<Page>) -> Seq<PageView> {
    v.map_values(|p: Page| p@)
}

/// What to show the user once a response was handled: a message, then, after a blank line,
/// the page on top of the stack, followed by a blank line when `blank_after` holds.
#[derive(Debug)]
pub struct Shown {
    pub message: String,
    pub blank_after: bool,
}

/// The client's stack of pages; the page on top is the one the user sees.
pub struct Interface {
    page_stack: Vec<Page>,
}

impl View for Interface {
    type V = Seq<PageView>;

    closed spec fn view(&self) -> Seq<PageView> {
        page_views(self.page_stack@)
    }
}

/// Whether a response of kind `t` carries data the client reads: the kinds that bring a page.
pub open spec fn reads_response_data(t: u16) -> bool {
    if t & 1 != 0 {
        true
    } else if t & 2 != 0 {
        false
    } else {
        t & 4 != 0 || t & 8 != 0 || t & 16 != 0 || t & 32 != 0 || t & 64 != 0 || t & 128 != 0 || t
            & 256 != 0 || t & 512 != 0 || t & 1024 != 0 || t & 2048 != 0
    }
}

/// Whether a response of kind `t` changes or shows the page on top of the stack, which must
/// then be there.
pub open spec fn needs_page(t: u16) -> bool {
    if t & 1 != 0 || t & 2 != 0 || t & 4 != 0 || t & 8 != 0 || t & 16 != 0 {
        false
    } else if t & 32 != 0 {
        true
    } else if t & 64 != 0 || t & 128 != 0 {
        false
    } else {
        t & 256 != 0 || t & 512 != 0 || t & 1024 != 0 || t & 2048 != 0 || t & 4096 != 0
    }
}

/// `r` shows `message`, then the page, with a blank line after it when `blank_after` holds.
pub open spec fn shows(r: Result<Shown, UserError>, message: Seq<char>, blank_after: bool) -> bool {
    r matches Ok(s) && s.message@ == message && s.blank_after == blank_after
}

/// How a page read from the data of a response changes the stack: with the page read, the
/// stack becomes `next` and `message` is shown; when the data holds no such page, the stack
/// stays as it was and the failure is reported.
pub open spec fn with_page<P>(
    read: Result<P, crate::interface::frame::FrameFailure>,
    page: spec_fn(P) -> PageView,
    stack: Seq<PageView>,
    next: spec_fn(PageView) -> Seq<PageView>,
    new: Seq<PageView>,
    r: Result<Shown, UserError>,
    message: Seq<char>,
    blank_after: bool,
) -> bool {
    match read {
        Ok(p) => new == next(page(p)) && shows(r, message, blank_after),
        Err(f) => new == stack && (r matches Err(e) && reports_frame_failure(e, f)),
    }
}

/// The home page a response's data holds.
pub open spec fn home_of(fs: Seq<EpicFrameView>) -> PageView {
    PageView::Home(fs)
}

/// The epic page a response's data holds.
pub open spec fn epic_page_of(p: (EpicFrameView, Seq<StoryFrameView>)) -> PageView {
    PageView::EpicDetail(p.0, p.1)
}

/// The story page a response's data holds.
pub open spec fn story_page_of(f: StoryFrameView) -> PageView {
    PageView::StoryDetail(f)
}

/// How the client handles a response whose tag is `tag` and whose data is `data`, with the
/// stack of pages `stack`: the stack `new` it leaves and what it shows, or the error.
pub open spec fn response_outcome(
    stack: Seq<PageView>,
    tag: Seq<u8>,
    data: Seq<u8>,
    new: Seq<PageView>,
    r: Result<Shown, UserError>,
) -> bool {
    let (t, epic_id, story_id, _) = decoded_tag(tag);
    let e = decimal_chars(epic_id as nat);
    let s = decimal_chars(story_id as nat);
    if t & 1 != 0 {
        with_page(
            epic_frames_from(data, 0),
            |fs| home_of(fs),
            stack,
            |p: PageView| stack.push(p),
            new,
            r,
            "connected to database successfully"@,
            true,
        )
    } else if t & 2 != 0 {
        new == stack && (r matches Err(UserError::InternalServerError))
    } else if t & 4 != 0 {
        with_page(
            epic_frames_from(data, 0),
            |fs| home_of(fs),
            stack,
            |p: PageView| seq![p],
            new,
            r,
            "epic added successfully, epic id: "@ + e,
            true,
        )
    } else if t & 8 != 0 {
        with_page(
            epic_frames_from(data, 0),
            |fs| home_of(fs),
            stack,
            |p: PageView| seq![p],
            new,
            r,
            "epic with id: "@ + e + " was deleted successfully"@,
            true,
        )
    } else if t & 16 != 0 {
        with_page(
            epic_page_frames(data),
            |p| epic_page_of(p),
            stack,
            |p: PageView| stack.push(p),
            new,
            r,
            "get epic with id: "@ + e + " successful"@,
            false,
        )
    } else if t & 32 != 0 {
        with_page(
            epic_page_frames(data),
            |p| epic_page_of(p),
            stack,
            |p: PageView| stack.drop_last().push(p),
            new,
            r,
            "updated status of epic with id: "@ + e + " successful"@,
            false,
        )
    } else if t & 64 != 0 {
        with_page(
            epic_frames_from(data, 0),
            |fs| home_of(fs),
            stack,
            |p: PageView| seq![p],
            new,
            r,
            "epic with id: "@ + e + " does not exist"@,
            false,
        )
    } else if t & 128 != 0 {
        with_page(
            story_page_frame(data),
            |f| story_page_of(f),
            stack,
            |p: PageView| stack.push(p),
            new,
            r,
            "get story with id: "@ + s + " successful"@,
            false,
        )
    } else if t & 256 != 0 || t & 512 != 0 || t & 1024 != 0 || t & 2048 != 0 {
        let message = if t & 256 != 0 {
            "story with id: "@ + s + " does not exist"@
        } else if t & 512 != 0 {
            "story with id: "@ + s + " was added successfully"@
        } else if t & 1024 != 0 {
            "story with id: "@ + s + " was deleted successfully"@
        } else {
            "updated status of story with id: "@ + s + " was successful"@
        };
        with_page(
            epic_page_frames(data),
            |p| epic_page_of(p),
            stack,
            |p: PageView| stack.take(1).push(p),
            new,
            r,
            message,
            false,
        )
    } else if t & 4096 != 0 {
        new == stack && shows(r, "request not parsed, please try again"@, false)
    } else {
        new == stack && (r matches Err(UserError::ParseResponseError(_)))
    }
}

/// What to show once a response was handled.
fn shown(message: String, blank_after: bool) -> (r: Result<Shown, UserError>)
    ensures
        shows(r, message@, blank_after),
{
    Ok(Shown { message, blank_after })
}

impl Interface {
    /// Creates an interface with no page yet.
    pub fn new() -> (i: Interface)
        ensures
            i@ == Seq::<PageView>::empty(),
    {
        let i = Interface { page_stack: Vec::new() };
        assert(page_views(i.page_stack@) =~= Seq::<PageView>::empty());
        i
    }

    /// Returns the number of pages on the stack.
    pub fn page_count(&self) -> (n: usize)
        ensures
            n == self@.len(),
    {
        self.page_stack.len()
    }

    /// Returns the page on top of the stack, the one the user sees.
    pub fn top_page(&self) -> (p: &Page)
        requires
            self@.len() > 0,
        ensures
            p@ == self@.last(),
    {
        &self.page_stack[self.page_stack.len() - 1]
    }

    /// Returns the number of data bytes that follow a response's tag and that the client
    /// reads, for the kinds of responses that bring a page, and `None` for the others.
    pub fn expected_data_len(tag_buf: &[u8; 18]) -> (r: Option<u64>)
        ensures
            r == if reads_response_data(decoded_tag(tag_buf@).0) {
                Some(decoded_tag(tag_buf@).3)
            } else {
                None
            },
    {
        let (t, _epic_id, _story_id, data_len) = Response::decode(tag_buf);
        if t & 1 != 0 {
            Some(data_len)
        } else if t & 2 != 0 {
            None
        } else if t & 4 != 0 || t & 8 != 0 || t & 16 != 0 || t & 32 != 0 || t & 64 != 0 || t & 128
            != 0 || t & 256 != 0 || t & 512 != 0 || t & 1024 != 0 || t & 2048 != 0 {
            Some(data_len)
        } else {
            None
        }
    }

    /// Returns whether handling a response with the tag `tag_buf` needs a page on the stack.
    pub fn needs_page(tag_buf: &[u8; 18]) -> (r: bool)
        ensures
            r == needs_page(decoded_tag(tag_buf@).0),
    {
        let (t, _epic_id, _story_id, _data_len) = Response::decode(tag_buf);
        if t & 1 != 0 || t & 2 != 0 || t & 4 != 0 || t & 8 != 0 || t & 16 != 0 {
            false
        } else if t & 32 != 0 {
            true
        } else if t & 64 != 0 || t & 128 != 0 {
            false
        } else {
            t & 256 != 0 || t & 512 != 0 || t & 1024 != 0 || t & 2048 != 0 || t & 4096 != 0
        }
    }

    /// Handles a response whose tag is `tag_buf` and whose data is `data`: reads the page the
    /// data holds and puts it on the stack as the kind of response asks, and says what to show.
    pub fn parse_response(&mut self, tag_buf: &[u8; 18], data: Vec<u8>) -> (r: Result<Shown, UserError>)
        requires
            needs_page(decoded_tag(tag_buf@).0) ==> old(self)@.len() > 0,
        ensures
            response_outcome(old(self)@, tag_buf@, data@, final(self)@, r),
    {
        let (type_and_flag, epic_id, story_id, _data_len) = Response::decode(tag_buf);
        let t = type_and_flag;
        let ghost stack = self@;
        if t & 1 != 0 {
            match HomePage::try_create(data) {
                Ok(homepage) => {
                    self.page_stack.push(Page::Home(homepage));
                    assert(self@ =~= stack.push(home_of(homepage@)));
                    shown("connected to database successfully".to_owned(), true)
                },
                Err(e) => Err(e),
            }
        } else if t & 2 != 0 {
            Err(UserError::InternalServerError)
        } else if t & 4 != 0 || t & 8 != 0 {
            match HomePage::try_create(data) {
                Ok(homepage) => {
                    self.page_stack = vec![Page::Home(homepage)];
                    assert(self@ =~= seq![home_of(homepage@)]);
                    if t & 4 != 0 {
                        shown(concat("epic added successfully, epic id: ", decimal_text(epic_id).as_str()), true)
                    } else {
                        shown(text_with_number("epic with id: ", epic_id, " was deleted successfully"), true)
                    }
                },
                Err(e) => Err(e),
            }
        } else if t & 16 != 0 || t & 32 != 0 {
            match EpicDetailPage::try_create(data) {
                Ok(page) => {
                    if t & 16 != 0 {
                        self.page_stack.push(Page::EpicDetail(page));
                        assert(self@ =~= stack.push(epic_page_of(page@)));
                        shown(text_with_number("get epic with id: ", epic_id, " successful"), false)
                    } else {
                        self.page_stack.pop();
                        self.page_stack.push(Page::EpicDetail(page));
                        assert(self@ =~= stack.drop_last().push(epic_page_of(page@)));
                        shown(text_with_number("updated status of epic with id: ", epic_id, " successful"), false)
                    }
                },
                Err(e) => Err(e),
            }
        } else if t & 64 != 0 {
            match HomePage::try_create(data) {
                Ok(homepage) => {
                    self.page_stack = vec![Page::Home(homepage)];
                    assert(self@ =~= seq![home_of(homepage@)]);
                    shown(text_with_number("epic with id: ", epic_id, " does not exist"), false)
                },
                Err(e) => Err(e),
            }
        } else if t & 128 != 0 {
            match StoryDetailPage::try_create(data) {
                Ok(page) => {
                    self.page_stack.push(Page::StoryDetail(page));
                    assert(self@ =~= stack.push(story_page_of(page@)));
                    shown(text_with_number("get story with id: ", story_id, " successful"), false)
                },
                Err(e) => Err(e),
            }
        } else if t & 256 != 0 || t & 512 != 0 || t & 1024 != 0 || t & 2048 != 0 {
            match EpicDetailPage::try_create(data) {
                Ok(page) => {
                    while self.page_stack.len() > 1
                        invariant
                            self.page_stack@.len() >= 1,
                            self@ == stack.take(self.page_stack@.len() as int),
                            stack.len() >= self.page_stack@.len(),
                        decreases self.page_stack@.len(),
                    {
                        self.page_stack.pop();
                        assert(self@ =~= stack.take(self.page_stack@.len() as int));
                    }
                    self.page_stack.push(Page::EpicDetail(page));
                    assert(self@ =~= stack.take(1).push(epic_page_of(page@)));
                    if t & 256 != 0 {
                        shown(text_with_number("story with id: ", story_id, " does not exist"), false)
                    } else if t & 512 != 0 {
                        shown(text_with_number("story with id: ", story_id, " was added successfully"), false)
                    } else if t & 1024 != 0 {
                        shown(text_with_number("story with id: ", story_id, " was deleted successfully"), false)
                    } else {
                        shown(
                            text_with_number("updated status of story with id: ", story_id, " was successful"),
                            false,
                        )
                    }
                },
                Err(e) => Err(e),
            }
        } else if t & 4096 != 0 {
            shown("request not parsed, please try again".to_owned(), false)
        } else {
            Err(UserError::ParseResponseError(
                "unable to parse response from server correctly".to_owned(),
            ))
        }
    }

    /// Handles the option the user picked on the page on top of the stack.
    pub fn parse_request_option(&self, option: &str) -> (r: Step)
        requires
            self@.len() > 0,
        ensures
            page_request_step(self@.last(), option@, r),
    {
        let top_pos = self.page_stack.len() - 1;
        self.page_stack[top_pos].parse_request(option)
    }

    /// Goes back to the previous page.
    pub fn previous_page(&mut self)
        requires
            old(self)@.len() > 1,
        ensures
            final(self)@ == old(self)@.drop_last(),
    {
        self.page_stack.pop();
        assert(self@ =~= old(self)@.drop_last());
    }
}

} // verus!

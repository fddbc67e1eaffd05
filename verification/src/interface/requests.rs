//! The requests a page builds from what the user enters.
//!
//! The user picks an option on a page; some options then ask for more input, one line (or,
//! on a story's page, all that is left of the input) at a time, until the request is built
//! or refused. Each step says what to show the user, which input to read next, and in which
//! state of the dialog to hand it back.

use vstd::prelude::*;
use crate::events::{
    add_epic_tag_bytes, add_story_tag_bytes, epic_tag_bytes, lemma_add_epic_tag_parses,
    lemma_add_story_tag_parses, lemma_epic_tags_parse, lemma_request_event_split,
    lemma_status_tags_parse, lemma_story_tags_parse, request_event, story_tag_bytes, update_epic_status_tag_bytes,
    update_story_status_tag_bytes, Event, EventView,
};
use crate::interface::pages::{Action, EpicDetailPage, HomePage, StoryDetailPage};
use crate::interface::UserError;
use crate::models::{byte_len, status_of_byte};
use crate::text::{
    bytes_of, concat, decimal_chars, decimal_text, is_digit, is_letter_option, is_single_char, parse_u32_str,
    parse_u8_str, parsed_u32, parsed_u8, str_byte_len, trim_end_char, trim_end_matches_char,
    trim_end_white, trim_end_white_space, utf8_bytes,
};
use crate::utils::append_bytes;

verus! {

/// Where a dialog that asks the user for more input stands.
#[derive(Debug)]
pub enum Dialog {
    /// The name of an epic to add is asked for.
    EpicName,
    /// The description of an epic to add, named `name`, is asked for.
    EpicDescription { name: String },
    /// The new status of the epic `epic_id` is asked for.
    EpicStatus { epic_id: u32 },
    /// The user is asked to confirm that the epic `epic_id` is to be deleted.
    EpicDeleteConfirm { epic_id: u32 },
    /// The name of a story to add to the epic `epic_id` is asked for.
    StoryName { epic_id: u32 },
    /// The description of a story to add to the epic `epic_id`, named `name`, is asked for.
    StoryDescription { epic_id: u32, name: String },
    /// The new status of the story `story_id` of the epic `epic_id` is asked for.
    StoryStatus { epic_id: u32, story_id: u32 },
    /// The user is asked to confirm that the story `story_id` of the epic `epic_id` is to be
    /// deleted.
    StoryDeleteConfirm { epic_id: u32, story_id: u32 },
}

/// What reading input from the user gave.
#[derive(Debug)]
pub enum UserInput {
    /// The text that was read: a line with its line break, or all that was left; empty when
    /// the input had ended.
    Text(String),
    /// The input could not be read.
    Failed,
}

/// The next step of a dialog.
#[derive(Debug)]
pub enum Step {
    /// The dialog is over: an action to take, or an error to show.
    Done(Result<Action, UserError>),
    /// Show the lines `show` (when `warn` holds, the first of them is a warning, also written
    /// to the error output), read input, a line or, when `whole` holds, all that is left of
    /// it, and hand it back to `dialog`.
    Read { dialog: Dialog, whole: bool, show: Vec<String>, warn: bool },
}

/// The text of what was read, or `None` when nothing could be read.
pub open spec fn input_text(input: UserInput) -> Option<Seq<char>> {
    match input {
        UserInput::Text(s) => Some(s@),
        UserInput::Failed => None,
    }
}

/// The texts of a list of lines.
pub open spec fn texts(v: Seq<String>) -> Seq<Seq<char>> {
    v.map_values(|s: String| s@)
}

/// `r` asks to show `lines`, with a warning first when `warn` holds, and to read a line or,
/// when `whole` holds, all that is left of the input.
pub open spec fn reads(r: Step, whole: bool, warn: bool, lines: Seq<Seq<char>>) -> bool {
    r matches Step::Read { whole: w, show, warn: wa, .. } && w == whole && wa == warn && texts(show@)
        == lines
}

/// `r` ends the dialog with the request `bytes`.
pub open spec fn requests(r: Step, bytes: Seq<u8>) -> bool {
    r matches Step::Done(Ok(Action::RequestParsed(b))) && b@ == bytes
}

/// Whether an option is the letter `lower`, in either case.
pub open spec fn is_option(option: Seq<char>, lower: char, upper: char) -> bool {
    option == seq![lower] || option == seq![upper]
}

/// The menu that asks for a new status of the epic or story (`what`) `id`.
pub open spec fn status_menu(what: Seq<char>, id: u32) -> Seq<Seq<char>> {
    seq![
        "please select the status you would like to update "@ + what + " "@ + decimal_chars(
            id as nat,
        ) + " with"@,
        "Open        - 0"@,
        "In Progress - 1"@,
        "Resolved    - 2"@,
        "Closed      - 3"@,
    ]
}

/// The question that asks to confirm that the epic or story (`what`) `id` is to be deleted.
pub open spec fn delete_question(what: Seq<char>, id: u32) -> Seq<char> {
    "are you sure you want to delete "@ + what + " "@ + decimal_chars(id as nat) + "? (y|n)"@
}

/// A name or description entered by the user: the line without its line breaks.
pub open spec fn entered_text(line: Seq<char>) -> Seq<char> {
    trim_end_char(line, '\n')
}

/// Whether a name or description fits the four bytes a request has for its length.
pub open spec fn fits_request(text: Seq<char>) -> bool {
    byte_len(text) <= u32::MAX
}

/// The step after the name of an epic to add was read.
pub open spec fn epic_name_step(input: Option<Seq<char>>, r: Step) -> bool {
    match input {
        None => r matches Step::Done(Err(UserError::ParseInputError)),
        Some(line) => if !fits_request(entered_text(line)) {
            r matches Step::Done(Err(UserError::InvalidInput(_)))
        } else {
            &&& r matches Step::Read { dialog: Dialog::EpicDescription { name }, .. } && name@
                == entered_text(line)
            &&& reads(r, false, false, seq![""@, "epic description: "@])
        },
    }
}

/// The step after the description of an epic to add, named `name`, was read.
pub open spec fn epic_description_step(name: Seq<char>, input: Option<Seq<char>>, r: Step) -> bool {
    match input {
        None => r matches Step::Done(Err(UserError::ParseInputError)),
        Some(line) => {
            let description = entered_text(line);
            if !fits_request(description) {
                r matches Step::Done(Err(UserError::InvalidInput(_)))
            } else {
                requests(
                    r,
                    add_epic_tag_bytes(name, description) + utf8_bytes(name) + utf8_bytes(
                        description,
                    ),
                )
            }
        },
    }
}

/// The step after a new status of the epic `epic_id` was read: a status number from 0 to 3
/// builds the request; anything else asks again.
pub open spec fn epic_status_step(epic_id: u32, input: Option<Seq<char>>, r: Step) -> bool {
    let menu = status_menu("epic"@, epic_id);
    let again = r matches Step::Read { dialog: Dialog::EpicStatus { epic_id: i }, .. } && i
        == epic_id;
    match input {
        None => again && reads(r, false, true, seq!["unable to read input, please try again"@] + menu),
        Some(line) => if line.len() == 0 {
            again && reads(r, false, true, seq!["no input entered, please try again"@] + menu)
        } else {
            match parsed_u8(trim_end_white_space(line)) {
                Some(s) => if s < 4 {
                    requests(r, update_epic_status_tag_bytes(epic_id, s))
                } else {
                    again && reads(
                        r,
                        false,
                        true,
                        seq!["invalid status selection, please try again"@] + menu,
                    )
                },
                None => again && reads(
                    r,
                    false,
                    true,
                    seq!["unable to parse status selection, please try again"@] + menu,
                ),
            }
        },
    }
}

/// The step after the answer to whether the epic `epic_id` is to be deleted was read: `y` (in
/// either case) builds the request, `n` goes back to the page, anything else asks again.
pub open spec fn epic_delete_step(epic_id: u32, input: Option<Seq<char>>, r: Step) -> bool {
    let again = r matches Step::Read { dialog: Dialog::EpicDeleteConfirm { epic_id: i }, .. } && i
        == epic_id;
    match input {
        None => again && reads(r, false, true, seq!["unable to read input, please try again"@]),
        Some(line) => if line.len() == 0 {
            again && reads(
                r,
                false,
                true,
                seq!["no input entered, please choose a valid option"@],
            )
        } else {
            let answer = trim_end_white_space(line);
            if is_option(answer, 'y', 'Y') {
                requests(r, epic_tag_bytes(2, epic_id))
            } else if is_option(answer, 'n', 'N') {
                r matches Step::Done(Ok(Action::Refresh))
            } else {
                again && reads(
                    r,
                    false,
                    false,
                    seq!["please choose a valid option"@, delete_question("epic"@, epic_id)],
                )
            }
        },
    }
}

/// The step after the name of a story to add to the epic `epic_id` was read.
pub open spec fn story_name_step(epic_id: u32, input: Option<Seq<char>>, r: Step) -> bool {
    match input {
        None => r matches Step::Done(Err(UserError::ParseInputError)),
        Some(line) => if !fits_request(entered_text(line)) {
            r matches Step::Done(Err(UserError::InvalidInput(_)))
        } else {
            &&& r matches Step::Read { dialog: Dialog::StoryDescription { epic_id: i, name }, .. }
                && i == epic_id && name@ == entered_text(line)
            &&& reads(r, false, false, seq![""@, "story description: "@])
        },
    }
}

/// The step after the description of a story to add to the epic `epic_id`, named `name`, was
/// read.
pub open spec fn story_description_step(
    epic_id: u32,
    name: Seq<char>,
    input: Option<Seq<char>>,
    r: Step,
) -> bool {
    match input {
        None => r matches Step::Done(Err(UserError::ParseInputError)),
        Some(line) => {
            let description = entered_text(line);
            if !fits_request(description) {
                r matches Step::Done(Err(UserError::InvalidInput(_)))
            } else {
                requests(
                    r,
                    add_story_tag_bytes(epic_id, name, description) + utf8_bytes(name) + utf8_bytes(
                        description,
                    ),
                )
            }
        },
    }
}

/// The step after a new status of the story `story_id` of the epic `epic_id` was read (all
/// that was left of the input): a status number from 0 to 3 builds the request; anything else
/// asks again.
pub open spec fn story_status_step(epic_id: u32, story_id: u32, input: Option<Seq<char>>, r: Step) -> bool {
    let menu = status_menu("story"@, story_id);
    let again = r matches Step::Read { dialog: Dialog::StoryStatus { epic_id: i, story_id: s }, .. }
        && i == epic_id && s == story_id;
    match input {
        None => again && reads(r, true, true, seq!["error reading input, please try again"@] + menu),
        Some(text) => match parsed_u8(trim_end_white_space(text)) {
            Some(s) => if s < 4 {
                requests(r, update_story_status_tag_bytes(epic_id, story_id, s))
            } else {
                again && reads(
                    r,
                    true,
                    true,
                    seq!["error parsing input as a valid status, please try again"@] + menu,
                )
            },
            None => again && reads(
                r,
                true,
                true,
                seq!["error parsing input, please try again"@] + menu,
            ),
        },
    }
}

/// The step after the answer to whether the story `story_id` of the epic `epic_id` is to be
/// deleted was read (all that was left of the input): `y` builds the request, `n` goes back to
/// the page, anything else asks again.
pub open spec fn story_delete_step(epic_id: u32, story_id: u32, input: Option<Seq<char>>, r: Step) -> bool {
    let again = r matches Step::Read {
        dialog: Dialog::StoryDeleteConfirm { epic_id: i, story_id: s },
        ..
    } && i == epic_id && s == story_id;
    match input {
        None => again && reads(r, true, true, seq!["error reading input, please try again"@]),
        Some(text) => if text.len() == 0 {
            again && reads(r, true, true, seq!["no input entered, please try again"@])
        } else {
            let answer = trim_end_white_space(text);
            if answer == seq!['y'] {
                requests(r, story_tag_bytes(64, epic_id, story_id))
            } else if answer == seq!['n'] {
                r matches Step::Done(Ok(Action::Refresh))
            } else {
                again && reads(
                    r,
                    true,
                    false,
                    seq!["please choose a valid option"@, delete_question("story"@, story_id)],
                )
            }
        },
    }
}

/// The step after the user picked `option` on the home page: `q` quits, `c` asks for the
/// name and the description of an epic to add, an epic id asks for that epic; anything else is
/// an invalid request.
pub open spec fn home_request_step(request_option: Seq<char>, r: Step) -> bool {
    if is_option(request_option, 'q', 'Q') {
        r matches Step::Done(Ok(Action::Quit))
    } else if is_option(request_option, 'c', 'C') {
        &&& r matches Step::Read { dialog: Dialog::EpicName, .. }
        &&& reads(r, false, false, seq!["epic name:"@])
    } else if parsed_u32(request_option) is Some {
        requests(r, epic_tag_bytes(4, parsed_u32(request_option).unwrap()))
    } else {
        r matches Step::Done(Err(UserError::InvalidRequest))
    }
}

/// The step after the user picked `option` on the page of the epic `epic_id`: `p` goes back,
/// `u` asks for a new status, `d` asks to confirm the deletion, `c` asks for the name and the
/// description of a story to add, a story id asks for that story; anything else is an invalid
/// request.
pub open spec fn epic_request_step(epic_id: u32, request_option: Seq<char>, r: Step) -> bool {
    if is_option(request_option, 'p', 'P') {
        r matches Step::Done(Ok(Action::PreviousPage))
    } else if is_option(request_option, 'u', 'U') {
        &&& r matches Step::Read { dialog: Dialog::EpicStatus { epic_id: i }, .. } && i == epic_id
        &&& reads(r, false, false, status_menu("epic"@, epic_id))
    } else if is_option(request_option, 'd', 'D') {
        &&& r matches Step::Read { dialog: Dialog::EpicDeleteConfirm { epic_id: i }, .. } && i
            == epic_id
        &&& reads(r, false, false, seq![delete_question("epic"@, epic_id)])
    } else if is_option(request_option, 'c', 'C') {
        &&& r matches Step::Read { dialog: Dialog::StoryName { epic_id: i }, .. } && i == epic_id
        &&& reads(r, false, false, seq!["story name:"@])
    } else if parsed_u32(request_option) is Some {
        requests(r, story_tag_bytes(16, epic_id, parsed_u32(request_option).unwrap()))
    } else {
        r matches Step::Done(Err(UserError::InvalidRequest))
    }
}

/// The step after the user picked `option` on the page of the story `story_id` of the epic
/// `epic_id`: `p` goes back, `u` asks for a new status, `d` asks to confirm the deletion;
/// anything else is an invalid request.
pub open spec fn story_request_step(epic_id: u32, story_id: u32, request_option: Seq<char>, r: Step) -> bool {
    if is_option(request_option, 'p', 'P') {
        r matches Step::Done(Ok(Action::PreviousPage))
    } else if is_option(request_option, 'u', 'U') {
        &&& r matches Step::Read { dialog: Dialog::StoryStatus { epic_id: i, story_id: s }, .. }
            && i == epic_id && s == story_id
        &&& reads(r, true, false, status_menu("story"@, story_id))
    } else if is_option(request_option, 'd', 'D') {
        &&& r matches Step::Read {
            dialog: Dialog::StoryDeleteConfirm { epic_id: i, story_id: s },
            ..
        } && i == epic_id && s == story_id
        &&& reads(r, true, false, seq![delete_question("story"@, story_id)])
    } else {
        r matches Step::Done(Err(UserError::InvalidRequest))
    }
}

/// The lines of the menu that asks for a new status of the epic or story (`what`) `id`.
fn status_menu_lines(what: &str, id: u32) -> (v: Vec<String>)
    ensures
        texts(v@) == status_menu(what@, id),
{
    let mut v: Vec<String> = Vec::new();
    let first = concat(
        concat(
            concat(concat("please select the status you would like to update ", what).as_str(), " ").as_str(),
            decimal_text(id).as_str(),
        ).as_str(),
        " with",
    );
    v.push(first);
    v.push("Open        - 0".to_owned());
    v.push("In Progress - 1".to_owned());
    v.push("Resolved    - 2".to_owned());
    v.push("Closed      - 3".to_owned());
    assert(texts(v@) =~= status_menu(what@, id));
    v
}

/// The question that asks to confirm that the epic or story (`what`) `id` is to be deleted.
fn delete_question_line(what: &str, id: u32) -> (s: String)
    ensures
        s@ == delete_question(what@, id),
{
    concat(
        concat(
            concat(concat("are you sure you want to delete ", what).as_str(), " ").as_str(),
            decimal_text(id).as_str(),
        ).as_str(),
        "? (y|n)",
    )
}

/// One line of text to show.
fn one_line(s: &str) -> (v: Vec<String>)
    ensures
        texts(v@) == seq![s@],
{
    let mut v: Vec<String> = Vec::new();
    v.push(s.to_owned());
    assert(texts(v@) =~= seq![s@]);
    v
}

/// Two lines of text to show.
fn two_lines(a: String, b: String) -> (v: Vec<String>)
    ensures
        texts(v@) == seq![a@, b@],
{
    let mut v: Vec<String> = Vec::new();
    v.push(a);
    v.push(b);
    assert(texts(v@) =~= seq![a@, b@]);
    v
}

/// A warning line followed by the lines of `rest`.
fn warning_then(warning: &str, rest: Vec<String>) -> (v: Vec<String>)
    ensures
        texts(v@) == seq![warning@] + texts(rest@),
{
    let mut v: Vec<String> = Vec::new();
    v.push(warning.to_owned());
    let mut i: usize = 0;
    while i < rest.len()
        invariant
            i <= rest@.len(),
            texts(v@) == seq![warning@] + texts(rest@.take(i as int)),
        decreases rest@.len() - i,
    {
        let ghost old_v = v@;
        let line = rest[i].clone();
        v.push(line);
        i = i + 1;
        assert(texts(v@) =~= texts(old_v).push(line@));
        assert(texts(rest@.take(i as int)) =~= texts(rest@.take(i - 1)).push(rest@[i - 1]@));
        assert(texts(v@) =~= seq![warning@] + texts(rest@.take(i as int)));
    }
    assert(rest@.take(i as int) =~= rest@);
    v
}

/// The bytes of a request to add an epic or a story: its tag, then the name and the
/// description.
fn request_with_texts(tag: &[u8; 13], name: &String, description: &String) -> (v: Vec<u8>)
    ensures
        v@ == tag@ + utf8_bytes(name@) + utf8_bytes(description@),
{
    let mut v: Vec<u8> = Vec::new();
    append_bytes(&mut v, tag.as_slice());
    let name_bytes = bytes_of(name.as_str());
    let description_bytes = bytes_of(description.as_str());
    append_bytes(&mut v, name_bytes.as_slice());
    append_bytes(&mut v, description_bytes.as_slice());
    v
}

/// Whether the UTF-8 encoding of `s` fits the four bytes a request has for its length.
fn fits_request_len(s: &String) -> (r: bool)
    ensures
        r == fits_request(s@),
{
    let n = str_byte_len(s.as_str());
    (n as u64) <= 0xffff_ffffu64
}

/// The bytes of a tag, in a vector of their own.
fn tag_vec(tag: &[u8; 13]) -> (v: Vec<u8>)
    ensures
        v@ == tag@,
{
    let mut v: Vec<u8> = Vec::new();
    append_bytes(&mut v, tag.as_slice());
    v
}

impl HomePage {
    /// Handles the option the user picked on the home page: `q` quits, `c` asks for the name
    /// and the description of an epic to add, an epic id asks for that epic; anything else is
    /// an invalid request. Options are letters in either case.
    pub fn parse_request(&self, request_option: &str) -> (r: Step)
        ensures
            home_request_step(request_option@, r),
    {
        if is_letter_option(request_option, 'q', 'Q') {
            Step::Done(Ok(Action::Quit))
        } else if is_letter_option(request_option, 'c', 'C') {
            Step::Read { dialog: Dialog::EpicName, whole: false, show: one_line("epic name:"), warn: false }
        } else {
            match parse_u32_str(request_option) {
                Some(id) => Step::Done(Ok(Action::RequestParsed(tag_vec(&Event::get_epic_tag(id))))),
                None => Step::Done(Err(UserError::InvalidRequest)),
            }
        }
    }
}

impl EpicDetailPage {
    /// Handles the option the user picked on an epic's page: `p` goes back, `u` asks for a new
    /// status of the epic, `d` asks to confirm its deletion, `c` asks for the name and the
    /// description of a story to add, a story id asks for that story; anything else is an
    /// invalid request. Options are letters in either case.
    pub fn parse_request(&self, request_option: &str) -> (r: Step)
        ensures
            epic_request_step(self@.0.id, request_option@, r),
    {
        let epic_id = self.frame().id();
        if is_letter_option(request_option, 'p', 'P') {
            Step::Done(Ok(Action::PreviousPage))
        } else if is_letter_option(request_option, 'u', 'U') {
            Step::Read {
                dialog: Dialog::EpicStatus { epic_id },
                whole: false,
                show: status_menu_lines("epic", epic_id),
                warn: false,
            }
        } else if is_letter_option(request_option, 'd', 'D') {
            let question = delete_question_line("epic", epic_id);
            let mut show: Vec<String> = Vec::new();
            show.push(question);
            proof {
                assert(texts(show@) =~= seq![delete_question("epic"@, epic_id)]);
            }
            Step::Read { dialog: Dialog::EpicDeleteConfirm { epic_id }, whole: false, show, warn: false }
        } else if is_letter_option(request_option, 'c', 'C') {
            Step::Read {
                dialog: Dialog::StoryName { epic_id },
                whole: false,
                show: one_line("story name:"),
                warn: false,
            }
        } else {
            match parse_u32_str(request_option) {
                Some(story_id) => Step::Done(
                    Ok(Action::RequestParsed(tag_vec(&Event::get_story_tag(epic_id, story_id)))),
                ),
                None => Step::Done(Err(UserError::InvalidRequest)),
            }
        }
    }
}

impl StoryDetailPage {
    /// Handles the option the user picked on a story's page: `p` goes back, `u` asks for a
    /// new status of the story, `d` asks to confirm its deletion; anything else is an invalid
    /// request. Options are letters in either case; the answers to `u` and `d` are read from
    /// all that is left of the input.
    pub fn parse_request(&self, request_option: &str) -> (r: Step)
        ensures
            story_request_step(self@.epic_id, self@.id, request_option@, r),
    {
        let epic_id = self.story_frame().epic_id();
        let story_id = self.story_frame().id();
        if is_letter_option(request_option, 'p', 'P') {
            Step::Done(Ok(Action::PreviousPage))
        } else if is_letter_option(request_option, 'u', 'U') {
            Step::Read {
                dialog: Dialog::StoryStatus { epic_id, story_id },
                whole: true,
                show: status_menu_lines("story", story_id),
                warn: false,
            }
        } else if is_letter_option(request_option, 'd', 'D') {
            let question = delete_question_line("story", story_id);
            let mut show: Vec<String> = Vec::new();
            show.push(question);
            proof {
                assert(texts(show@) =~= seq![delete_question("story"@, story_id)]);
            }
            Step::Read {
                dialog: Dialog::StoryDeleteConfirm { epic_id, story_id },
                whole: true,
                show,
                warn: false,
            }
        } else {
            Step::Done(Err(UserError::InvalidRequest))
        }
    }
}

impl Dialog {
    /// Takes the next step of the dialog with the input the user gave.
    pub fn resume(self, input: UserInput) -> (r: Step)
        ensures
            match self {
                Dialog::EpicName => epic_name_step(input_text(input), r),
                Dialog::EpicDescription { name } => epic_description_step(name@, input_text(input), r),
                Dialog::EpicStatus { epic_id } => epic_status_step(epic_id, input_text(input), r),
                Dialog::EpicDeleteConfirm { epic_id } => epic_delete_step(epic_id, input_text(input), r),
                Dialog::StoryName { epic_id } => story_name_step(epic_id, input_text(input), r),
                Dialog::StoryDescription { epic_id, name } => story_description_step(
                    epic_id,
                    name@,
                    input_text(input),
                    r,
                ),
                Dialog::StoryStatus { epic_id, story_id } => story_status_step(
                    epic_id,
                    story_id,
                    input_text(input),
                    r,
                ),
                Dialog::StoryDeleteConfirm { epic_id, story_id } => story_delete_step(
                    epic_id,
                    story_id,
                    input_text(input),
                    r,
                ),
            },
    {
        match self {
            Dialog::EpicName => Dialog::read_epic_name(input),
            Dialog::EpicDescription { name } => Dialog::read_epic_description(name, input),
            Dialog::EpicStatus { epic_id } => Dialog::read_epic_status(epic_id, input),
            Dialog::EpicDeleteConfirm { epic_id } => Dialog::read_epic_delete(epic_id, input),
            Dialog::StoryName { epic_id } => Dialog::read_story_name(epic_id, input),
            Dialog::StoryDescription { epic_id, name } => Dialog::read_story_description(
                epic_id,
                name,
                input,
            ),
            Dialog::StoryStatus { epic_id, story_id } => Dialog::read_story_status(
                epic_id,
                story_id,
                input,
            ),
            Dialog::StoryDeleteConfirm { epic_id, story_id } => Dialog::read_story_delete(
                epic_id,
                story_id,
                input,
            ),
        }
    }

    /// The step after the name of an epic to add was read.
    fn read_epic_name(input: UserInput) -> (r: Step)
        ensures
            epic_name_step(input_text(input), r),
    {
        match input {
            UserInput::Failed => Step::Done(Err(UserError::ParseInputError)),
            UserInput::Text(line) => {
                let epic_name = trim_end_matches_char(line.as_str(), '\n');
                if !fits_request_len(&epic_name) {
                    return Step::Done(Err(UserError::InvalidInput(
                        "Invalid input, epic's name is to large".to_owned(),
                    )));
                }
                Step::Read {
                    dialog: Dialog::EpicDescription { name: epic_name },
                    whole: false,
                    show: two_lines("".to_owned(), "epic description: ".to_owned()),
                    warn: false,
                }
            },
        }
    }

    /// The step after the description of an epic to add, named `name`, was read.
    fn read_epic_description(name: String, input: UserInput) -> (r: Step)
        ensures
            epic_description_step(name@, input_text(input), r),
    {
        match input {
            UserInput::Failed => Step::Done(Err(UserError::ParseInputError)),
            UserInput::Text(line) => {
                let epic_description = trim_end_matches_char(line.as_str(), '\n');
                if !fits_request_len(&epic_description) {
                    return Step::Done(Err(UserError::InvalidInput(
                        "Invalid input, epic's description is to large".to_owned(),
                    )));
                }
                let tag = Event::add_epic_tag(&name, &epic_description);
                Step::Done(Ok(Action::RequestParsed(request_with_texts(&tag, &name, &epic_description))))
            },
        }
    }

    /// The step after a new status of the epic `epic_id` was read.
    fn read_epic_status(epic_id: u32, input: UserInput) -> (r: Step)
        ensures
            epic_status_step(epic_id, input_text(input), r),
    {
        let warning = match input {
            UserInput::Failed => "unable to read input, please try again",
            UserInput::Text(line) => {
                if line.as_str().is_empty() {
                    "no input entered, please try again"
                } else {
                    let trimmed = trim_end_white(line.as_str());
                    match parse_u8_str(trimmed.as_str()) {
                        Some(s) => {
                            if s < 4 {
                                let tag = Event::get_update_epic_status_tag(epic_id, s);
                                return Step::Done(Ok(Action::RequestParsed(tag_vec(&tag))));
                            }
                            "invalid status selection, please try again"
                        },
                        None => "unable to parse status selection, please try again",
                    }
                }
            },
        };
        Step::Read {
            dialog: Dialog::EpicStatus { epic_id },
            whole: false,
            show: warning_then(warning, status_menu_lines("epic", epic_id)),
            warn: true,
        }
    }

    /// The step after the answer to whether the epic `epic_id` is to be deleted was read.
    fn read_epic_delete(epic_id: u32, input: UserInput) -> (r: Step)
        ensures
            epic_delete_step(epic_id, input_text(input), r),
    {
        match input {
            UserInput::Failed => Step::Read {
                dialog: Dialog::EpicDeleteConfirm { epic_id },
                whole: false,
                show: one_line("unable to read input, please try again"),
                warn: true,
            },
            UserInput::Text(line) => {
                if line.as_str().is_empty() {
                    return Step::Read {
                        dialog: Dialog::EpicDeleteConfirm { epic_id },
                        whole: false,
                        show: one_line("no input entered, please choose a valid option"),
                        warn: true,
                    };
                }
                let answer = trim_end_white(line.as_str());
                if is_letter_option(answer.as_str(), 'y', 'Y') {
                    Step::Done(Ok(Action::RequestParsed(tag_vec(&Event::delete_epic_tag(epic_id)))))
                } else if is_letter_option(answer.as_str(), 'n', 'N') {
                    Step::Done(Ok(Action::Refresh))
                } else {
                    Step::Read {
                        dialog: Dialog::EpicDeleteConfirm { epic_id },
                        whole: false,
                        show: two_lines(
                            "please choose a valid option".to_owned(),
                            delete_question_line("epic", epic_id),
                        ),
                        warn: false,
                    }
                }
            },
        }
    }

    /// The step after the name of a story to add to the epic `epic_id` was read.
    fn read_story_name(epic_id: u32, input: UserInput) -> (r: Step)
        ensures
            story_name_step(epic_id, input_text(input), r),
    {
        match input {
            UserInput::Failed => Step::Done(Err(UserError::ParseInputError)),
            UserInput::Text(line) => {
                let story_name = trim_end_matches_char(line.as_str(), '\n');
                if !fits_request_len(&story_name) {
                    return Step::Done(Err(UserError::InvalidInput(
                        "invalid input, story's name is too large".to_owned(),
                    )));
                }
                Step::Read {
                    dialog: Dialog::StoryDescription { epic_id, name: story_name },
                    whole: false,
                    show: two_lines("".to_owned(), "story description: ".to_owned()),
                    warn: false,
                }
            },
        }
    }

    /// The step after the description of a story to add to the epic `epic_id`, named
    /// `name`, was read.
    fn read_story_description(epic_id: u32, name: String, input: UserInput) -> (r: Step)
        ensures
            story_description_step(epic_id, name@, input_text(input), r),
    {
        match input {
            UserInput::Failed => Step::Done(Err(UserError::ParseInputError)),
            UserInput::Text(line) => {
                let story_description = trim_end_matches_char(line.as_str(), '\n');
                if !fits_request_len(&story_description) {
                    return Step::Done(Err(UserError::InvalidInput(
                        "invalid input, story's description is too large".to_owned(),
                    )));
                }
                let tag = Event::get_add_story_tag(epic_id, &name, &story_description);
                Step::Done(Ok(Action::RequestParsed(request_with_texts(&tag, &name, &story_description))))
            },
        }
    }

    /// The step after a new status of the story `story_id` of the epic `epic_id` was read.
    fn read_story_status(epic_id: u32, story_id: u32, input: UserInput) -> (r: Step)
        ensures
            story_status_step(epic_id, story_id, input_text(input), r),
    {
        let warning = match input {
            UserInput::Failed => "error reading input, please try again",
            UserInput::Text(text) => {
                let trimmed = trim_end_white(text.as_str());
                match parse_u8_str(trimmed.as_str()) {
                    Some(s) => {
                        if s < 4 {
                            let tag = Event::get_update_story_status_tag(epic_id, story_id, s);
                            return Step::Done(Ok(Action::RequestParsed(tag_vec(&tag))));
                        }
                        "error parsing input as a valid status, please try again"
                    },
                    None => "error parsing input, please try again",
                }
            },
        };
        Step::Read {
            dialog: Dialog::StoryStatus { epic_id, story_id },
            whole: true,
            show: warning_then(warning, status_menu_lines("story", story_id)),
            warn: true,
        }
    }

    /// The step after the answer to whether the story `story_id` of the epic `epic_id` is to
    /// be deleted was read.
    fn read_story_delete(epic_id: u32, story_id: u32, input: UserInput) -> (r: Step)
        ensures
            story_delete_step(epic_id, story_id, input_text(input), r),
    {
        match input {
            UserInput::Failed => Step::Read {
                dialog: Dialog::StoryDeleteConfirm { epic_id, story_id },
                whole: true,
                show: one_line("error reading input, please try again"),
                warn: true,
            },
            UserInput::Text(text) => {
                if text.as_str().is_empty() {
                    return Step::Read {
                        dialog: Dialog::StoryDeleteConfirm { epic_id, story_id },
                        whole: true,
                        show: one_line("no input entered, please try again"),
                        warn: true,
                    };
                }
                let answer = trim_end_white(text.as_str());
                if is_single_char(answer.as_str(), 'y') {
                    Step::Done(
                        Ok(Action::RequestParsed(tag_vec(&Event::get_delete_story_tag(epic_id, story_id)))),
                    )
                } else if is_single_char(answer.as_str(), 'n') {
                    Step::Done(Ok(Action::Refresh))
                } else {
                    Step::Read {
                        dialog: Dialog::StoryDeleteConfirm { epic_id, story_id },
                        whole: true,
                        show: two_lines(
                            "please choose a valid option".to_owned(),
                            delete_question_line("story", story_id),
                        ),
                        warn: false,
                    }
                }
            },
        }
    }
}

/// The requests the dialogs build are read by the server as the requests the user asked for:
/// an epic or a story to add, with the name and the description entered, for texts that fit
/// a request; an epic or a story to get or to delete; and a new status, for a status number
/// from 0 to 3.
pub proof fn lemma_built_requests_parse(
    peer_id: u128,
    epic_id: u32,
    story_id: u32,
    status: u8,
    name: Seq<char>,
    description: Seq<char>,
)
    requires
        fits_request(name),
        fits_request(description),
        status < 4,
    ensures
        request_event(
            peer_id,
            add_epic_tag_bytes(name, description) + utf8_bytes(name) + utf8_bytes(description),
        ) == Some(EventView::AddEpic { peer_id, epic_name: name, epic_description: description }),
        request_event(
            peer_id,
            add_story_tag_bytes(epic_id, name, description) + utf8_bytes(name) + utf8_bytes(
                description,
            ),
        ) == Some(
            EventView::AddStory { peer_id, epic_id, story_name: name, story_description: description },
        ),
        request_event(peer_id, epic_tag_bytes(2, epic_id)) == Some(
            EventView::DeleteEpic { peer_id, epic_id },
        ),
        request_event(peer_id, epic_tag_bytes(4, epic_id)) == Some(
            EventView::GetEpic { peer_id, epic_id },
        ),
        request_event(peer_id, story_tag_bytes(16, epic_id, story_id)) == Some(
            EventView::GetStory { peer_id, epic_id, story_id },
        ),
        request_event(peer_id, story_tag_bytes(64, epic_id, story_id)) == Some(
            EventView::DeleteStory { peer_id, epic_id, story_id },
        ),
        request_event(peer_id, update_epic_status_tag_bytes(epic_id, status)) == Some(
            EventView::UpdateEpicStatus { peer_id, epic_id, status: status_of_byte(status).unwrap() },
        ),
        request_event(peer_id, update_story_status_tag_bytes(epic_id, story_id, status)) == Some(
            EventView::UpdateStoryStatus {
                peer_id,
                epic_id,
                story_id,
                status: status_of_byte(status).unwrap(),
            },
        ),
{
    let texts = utf8_bytes(name) + utf8_bytes(description);
    let empty = Seq::<u8>::empty();
    let t1 = add_epic_tag_bytes(name, description);
    let t2 = add_story_tag_bytes(epic_id, name, description);
    assert(t1 + utf8_bytes(name) + utf8_bytes(description) =~= t1 + texts);
    assert(t2 + utf8_bytes(name) + utf8_bytes(description) =~= t2 + texts);
    lemma_add_epic_tag_parses(peer_id, name, description);
    lemma_add_story_tag_parses(peer_id, epic_id, name, description);
    lemma_request_event_split(peer_id, t1, texts);
    lemma_request_event_split(peer_id, t2, texts);
    let t3 = epic_tag_bytes(2, epic_id);
    let t4 = epic_tag_bytes(4, epic_id);
    let t5 = story_tag_bytes(16, epic_id, story_id);
    let t6 = story_tag_bytes(64, epic_id, story_id);
    let t7 = update_epic_status_tag_bytes(epic_id, status);
    let t8 = update_story_status_tag_bytes(epic_id, story_id, status);
    lemma_epic_tags_parse(peer_id, epic_id, empty);
    lemma_story_tags_parse(peer_id, epic_id, story_id, empty);
    lemma_status_tags_parse(peer_id, epic_id, story_id, status, empty);
    assert(t3 + empty =~= t3);
    assert(t4 + empty =~= t4);
    assert(t5 + empty =~= t5);
    assert(t6 + empty =~= t6);
    assert(t7 + empty =~= t7);
    assert(t8 + empty =~= t8);
    lemma_request_event_split(peer_id, t3, empty);
    lemma_request_event_split(peer_id, t4, empty);
    lemma_request_event_split(peer_id, t5, empty);
    lemma_request_event_split(peer_id, t6, empty);
    lemma_request_event_split(peer_id, t7, empty);
    lemma_request_event_split(peer_id, t8, empty);
}

/// Picking an option on a page asks the server only to read, never to change the database:
/// an epic id entered on the home page is read by the server as a request for that epic, a
/// story id entered on the page of an epic as a request for that story of that epic; and
/// every request these pages build directly is one of those.
pub proof fn lemma_page_options_request(
    peer_id: u128,
    epic_id: u32,
    option: Seq<char>,
    on_home: Step,
    on_epic: Step,
)
    requires
        home_request_step(option, on_home),
        epic_request_step(epic_id, option, on_epic),
    ensures
        parsed_u32(option) matches Some(id) ==> on_home matches Step::Done(
            Ok(Action::RequestParsed(b)),
        ) && request_event(peer_id, b@) == Some(EventView::GetEpic { peer_id, epic_id: id }),
        parsed_u32(option) matches Some(id) ==> on_epic matches Step::Done(
            Ok(Action::RequestParsed(b)),
        ) && request_event(peer_id, b@) == Some(
            EventView::GetStory { peer_id, epic_id, story_id: id },
        ),
        on_home matches Step::Done(Ok(Action::RequestParsed(b))) ==> parsed_u32(option) is Some,
        on_epic matches Step::Done(Ok(Action::RequestParsed(b))) ==> parsed_u32(option) is Some,
{
    if let Some(id) = parsed_u32(option) {
        assert(!is_digit('q') && !is_digit('Q') && !is_digit('c') && !is_digit('C') && !is_digit('p')
            && !is_digit('P') && !is_digit('u') && !is_digit('U') && !is_digit('d') && !is_digit('D'));
        if option.len() == 1 {
            assert(is_digit(option[0]) || option[0] == '+');
            if option[0] == '+' {
                assert(option.drop_first().len() == 0);
            }
        }
        assert(!is_option(option, 'q', 'Q') && !is_option(option, 'c', 'C') && !is_option(option, 'p', 'P')
            && !is_option(option, 'u', 'U') && !is_option(option, 'd', 'D'));
        lemma_built_requests_parse(peer_id, id, id, 0, Seq::empty(), Seq::empty());
        lemma_built_requests_parse(peer_id, epic_id, id, 0, Seq::empty(), Seq::empty());
    }
}

/// Confirming a deletion asks the server to delete exactly what was asked about: `y` on the
/// question for the epic `epic_id` builds a request that the server reads as the deletion of
/// that epic, and `y` on the question for the story `story_id` of that epic one that it reads
/// as the deletion of that story; `n` builds no request. No other answer builds one.
pub proof fn lemma_confirmations_request(
    peer_id: u128,
    epic_id: u32,
    story_id: u32,
    input: Option<Seq<char>>,
    for_epic: Step,
    for_story: Step,
)
    requires
        epic_delete_step(epic_id, input, for_epic),
        story_delete_step(epic_id, story_id, input, for_story),
    ensures
        for_epic matches Step::Done(Ok(Action::RequestParsed(b))) ==> request_event(peer_id, b@)
            == Some(EventView::DeleteEpic { peer_id, epic_id }),
        for_story matches Step::Done(Ok(Action::RequestParsed(b))) ==> request_event(peer_id, b@)
            == Some(EventView::DeleteStory { peer_id, epic_id, story_id }),
        input matches Some(line) && trim_end_white_space(line) == seq!['y'] ==> {
            &&& for_epic matches Step::Done(Ok(Action::RequestParsed(_)))
            &&& for_story matches Step::Done(Ok(Action::RequestParsed(_)))
        },
        input matches Some(line) && trim_end_white_space(line) == seq!['n'] ==> {
            &&& for_epic matches Step::Done(Ok(Action::Refresh))
            &&& for_story matches Step::Done(Ok(Action::Refresh))
        },
{
    lemma_built_requests_parse(peer_id, epic_id, story_id, 0, Seq::empty(), Seq::empty());
    if let Some(line) = input {
        if trim_end_white_space(line) == seq!['y'] || trim_end_white_space(line) == seq!['n'] {
            if line.len() == 0 {
                assert(trim_end_white_space(line) == line);
            }
        }
        if trim_end_white_space(line) == seq!['n'] {
            assert(seq!['n'][0] != seq!['y'][0] && seq!['n'][0] != seq!['Y'][0]);
            assert(!is_option(trim_end_white_space(line), 'y', 'Y'));
        }
    }
}

/// Answering a status menu asks the server to set the status whose number was entered, on the
/// epic or story the menu was shown for: a request built from the answer is read by the server
/// as that status update, for a number from 0 to 3.
pub proof fn lemma_status_answers_request(
    peer_id: u128,
    epic_id: u32,
    story_id: u32,
    input: Option<Seq<char>>,
    for_epic: Step,
    for_story: Step,
)
    requires
        epic_status_step(epic_id, input, for_epic),
        story_status_step(epic_id, story_id, input, for_story),
    ensures
        for_epic matches Step::Done(Ok(Action::RequestParsed(b))) ==> input matches Some(line)
            && parsed_u8(trim_end_white_space(line)) matches Some(n) && n < 4 && request_event(peer_id, b@)
            == Some(
            EventView::UpdateEpicStatus { peer_id, epic_id, status: status_of_byte(n).unwrap() },
        ),
        for_story matches Step::Done(Ok(Action::RequestParsed(b))) ==> input matches Some(line)
            && parsed_u8(trim_end_white_space(line)) matches Some(n) && n < 4 && request_event(peer_id, b@)
            == Some(
            EventView::UpdateStoryStatus {
                peer_id,
                epic_id,
                story_id,
                status: status_of_byte(n).unwrap(),
            },
        ),
{
    if let Some(line) = input {
        if let Some(n) = parsed_u8(trim_end_white_space(line)) {
            if n < 4 {
                lemma_built_requests_parse(peer_id, epic_id, story_id, n, Seq::empty(), Seq::empty());
            }
        }
    }
}

/// Entering a description asks the server to add an epic, or a story to the epic `epic_id`,
/// with the name entered before and the description as entered, without its line break.
pub proof fn lemma_descriptions_request(
    peer_id: u128,
    epic_id: u32,
    name: Seq<char>,
    input: Option<Seq<char>>,
    for_epic: Step,
    for_story: Step,
)
    requires
        fits_request(name),
        epic_description_step(name, input, for_epic),
        story_description_step(epic_id, name, input, for_story),
    ensures
        for_epic matches Step::Done(Ok(Action::RequestParsed(b))) ==> input matches Some(line)
            && request_event(peer_id, b@) == Some(
            EventView::AddEpic { peer_id, epic_name: name, epic_description: entered_text(line) },
        ),
        for_story matches Step::Done(Ok(Action::RequestParsed(b))) ==> input matches Some(line)
            && request_event(peer_id, b@) == Some(
            EventView::AddStory {
                peer_id,
                epic_id,
                story_name: name,
                story_description: entered_text(line),
            },
        ),
{
    if let Some(line) = input {
        if fits_request(entered_text(line)) {
            lemma_built_requests_parse(peer_id, epic_id, 0, 0, name, entered_text(line));
        }
    }
}

/// Adding an epic or a story takes two answers, and the request built from them is read by the
/// server as the addition of an epic, or of a story to the epic `epic_id`, named by the first
/// answer and described by the second, each without its line break.
pub proof fn lemma_add_dialogs_request(
    peer_id: u128,
    epic_id: u32,
    name_line: Seq<char>,
    description_line: Seq<char>,
    epic_named: Step,
    epic_described: Step,
    story_named: Step,
    story_described: Step,
)
    requires
        epic_name_step(Some(name_line), epic_named),
        epic_named matches Step::Read { dialog: Dialog::EpicDescription { name }, .. }
            && epic_description_step(name@, Some(description_line), epic_described),
        story_name_step(epic_id, Some(name_line), story_named),
        story_named matches Step::Read { dialog: Dialog::StoryDescription { epic_id: i, name }, .. }
            && story_description_step(i, name@, Some(description_line), story_described),
    ensures
        epic_described matches Step::Done(Ok(Action::RequestParsed(b))) ==> request_event(peer_id, b@)
            == Some(
            EventView::AddEpic {
                peer_id,
                epic_name: entered_text(name_line),
                epic_description: entered_text(description_line),
            },
        ),
        story_described matches Step::Done(Ok(Action::RequestParsed(b))) ==> request_event(
            peer_id,
            b@,
        ) == Some(
            EventView::AddStory {
                peer_id,
                epic_id,
                story_name: entered_text(name_line),
                story_description: entered_text(description_line),
            },
        ),
{
    let name = entered_text(name_line);
    lemma_descriptions_request(peer_id, epic_id, name, Some(description_line), epic_described, story_described);
}

/// The dialogs that a page opens act on what the page shows: deleting from the page of the
/// epic `epic_id`, or from the page of its story `story_id`, asks the server to delete that
/// epic or that story, and a status chosen there is asked for that epic or that story.
pub proof fn lemma_page_dialogs_target_the_page(
    peer_id: u128,
    epic_id: u32,
    story_id: u32,
    input: Option<Seq<char>>,
    epic_d: Step,
    epic_delete: Step,
    story_d: Step,
    story_delete: Step,
    epic_u: Step,
    epic_status: Step,
    story_u: Step,
    story_status: Step,
)
    requires
        epic_request_step(epic_id, seq!['d'], epic_d),
        epic_d matches Step::Read { dialog: Dialog::EpicDeleteConfirm { epic_id: i }, .. }
            && epic_delete_step(i, input, epic_delete),
        story_request_step(epic_id, story_id, seq!['d'], story_d),
        story_d matches Step::Read { dialog: Dialog::StoryDeleteConfirm { epic_id: i, story_id: s }, .. }
            && story_delete_step(i, s, input, story_delete),
        epic_request_step(epic_id, seq!['u'], epic_u),
        epic_u matches Step::Read { dialog: Dialog::EpicStatus { epic_id: i }, .. }
            && epic_status_step(i, input, epic_status),
        story_request_step(epic_id, story_id, seq!['u'], story_u),
        story_u matches Step::Read { dialog: Dialog::StoryStatus { epic_id: i, story_id: s }, .. }
            && story_status_step(i, s, input, story_status),
    ensures
        epic_delete matches Step::Done(Ok(Action::RequestParsed(b))) ==> request_event(peer_id, b@)
            == Some(EventView::DeleteEpic { peer_id, epic_id }),
        story_delete matches Step::Done(Ok(Action::RequestParsed(b))) ==> request_event(peer_id, b@)
            == Some(EventView::DeleteStory { peer_id, epic_id, story_id }),
        epic_status matches Step::Done(Ok(Action::RequestParsed(b))) ==> request_event(peer_id, b@) matches Some(
            EventView::UpdateEpicStatus { epic_id: e, .. },
        ) && e == epic_id,
        story_status matches Step::Done(Ok(Action::RequestParsed(b))) ==> request_event(peer_id, b@) matches Some(
            EventView::UpdateStoryStatus { epic_id: e, story_id: s, .. },
        ) && e == epic_id && s == story_id,
{
    assert(seq!['d'] != seq!['p'] && seq!['d'] != seq!['P'] && seq!['d'] != seq!['u'] && seq!['d'] != seq!['U']) by {
        assert(seq!['d'][0] == 'd');
    }
    assert(seq!['u'] != seq!['p'] && seq!['u'] != seq!['P']) by {
        assert(seq!['u'][0] == 'u');
    }
    lemma_confirmations_request(peer_id, epic_id, story_id, input, epic_delete, story_delete);
    lemma_status_answers_request(peer_id, epic_id, story_id, input, epic_status, story_status);
}

} // verus!

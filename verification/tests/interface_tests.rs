use async_jira_cli::events::Event;
use async_jira_cli::interface::frame::{EpicFrame, StoryFrame};
use async_jira_cli::interface::pages::{justify_text_with_ellipses, Action, EpicDetailPage, HomePage, StoryDetailPage};
use async_jira_cli::interface::requests::{Step, UserInput};
use async_jira_cli::interface::{Interface, Page, UserError};
use async_jira_cli::models::{DbState, Epic, Status, Story};
use async_jira_cli::response::Response;
use async_jira_cli::models::BytesEncode;
use async_jira_cli::utils::AsBytes;
use std::collections::HashMap;
use std::io::{BufRead, Cursor, Read};

/// Runs a dialog to its end, reading what each step asks for from `input`.
fn run_dialog(step: Step, input: &mut Cursor<Vec<u8>>) -> Result<Action, UserError> {
    let mut step = step;
    loop {
        match step {
            Step::Done(r) => return r,
            Step::Read { dialog, whole, show, .. } => {
                for line in show {
                    println!("{}", line);
                }
                let mut buf = String::new();
                let read = if whole { input.read_to_string(&mut buf) } else { input.read_line(&mut buf) };
                let got = match read {
                    Ok(_) => UserInput::Text(buf),
                    Err(_) => UserInput::Failed,
                };
                step = dialog.resume(got);
            }
        }
    }
}

/// The tag and the rest of a request.
fn split_request(request_bytes: &[u8]) -> ([u8; 13], Vec<u8>) {
    let mut request_cursor = Cursor::new(request_bytes.to_vec());
    let mut tag_buf = [0u8; 13];
    assert!(request_cursor.read_exact(&mut tag_buf).is_ok());
    let mut rest = vec![];
    request_cursor.read_to_end(&mut rest).unwrap();
    (tag_buf, rest)
}

fn test_homepage() -> HomePage {
    let mut data = vec![];
    for (id, status) in [(0, Status::Open), (1, Status::Resolved), (3, Status::InProgress)] {
        let epic = Epic::new(id, String::from("Test Epic"), String::from("Another good epic for testing"), status, String::new(), HashMap::new());
        let tag = epic.encode();
        data.extend_from_slice(&tag);
        data.extend_from_slice(epic.name().as_bytes());
        data.extend_from_slice(epic.description().as_bytes());
    }
    HomePage::try_create(data).expect("home page should be read")
}

#[test]
fn test_try_from_reader_epic() {
    let test_epic = Epic::new(0, "A simple test epic1".to_string(), "A simple test epic for testing purposes".to_string(), Status::Open, String::new(), HashMap::new());

    let test_epic_bytes = test_epic.as_bytes();

    let mut cursor = Cursor::new(test_epic_bytes.clone());

    let mut tag_buf = [0; 13];

    assert!(cursor.read_exact(&mut tag_buf).is_ok());

    let mut pos = 13usize;
    let epic_frame_result = EpicFrame::try_from_reader(&tag_buf, &test_epic_bytes, &mut pos);

    println!("{:?}", epic_frame_result);

    assert!(epic_frame_result.is_ok());

    let epic_frame = epic_frame_result.unwrap();

    println!("{:?}", epic_frame);

    assert_eq!(epic_frame.id(), test_epic.id());
    assert_eq!(epic_frame.name(), test_epic.name());
    assert_eq!(epic_frame.description(), test_epic.description());
    assert_eq!(epic_frame.status(), test_epic.status());
    assert_eq!(pos, test_epic_bytes.len());
}

#[test]
fn test_try_from_reader_story() {
    let test_story = Story::new(0, 0, "A simple test story".to_string(), "A simple test story for testing purposes".to_string(), Status::InProgress);

    let test_story_bytes = test_story.as_bytes();

    let mut cursor = Cursor::new(test_story_bytes.clone());

    let mut tag_buf = [0; 17];

    assert!(cursor.read_exact(&mut tag_buf).is_ok());

    let mut pos = 17usize;
    let story_frame_result = StoryFrame::try_from_reader(&tag_buf, &test_story_bytes, &mut pos);

    println!("{:?}", story_frame_result);

    let story_frame = story_frame_result.unwrap();

    println!("{:?}", story_frame);

    assert_eq!(story_frame.id(), test_story.id());
    assert_eq!(story_frame.name(), test_story.name());
    assert_eq!(story_frame.description(), test_story.description());
    assert_eq!(story_frame.status(), test_story.status());
}

#[test]
fn test_frame_errors() {
    let story = Story::new(5, 6, "name".to_string(), "description".to_string(), Status::Open);
    let mut bytes = story.as_bytes();
    let mut tag = [0u8; 17];
    tag.copy_from_slice(&bytes[..17]);
    // The bytes end inside the description.
    let mut pos = 17usize;
    bytes.truncate(bytes.len() - 1);
    assert!(matches!(StoryFrame::try_from_reader(&tag, &bytes, &mut pos), Err(UserError::ReadFrameError(_))));
    // A status byte that names no status is reported first.
    tag[16] = 9;
    let mut pos = 17usize;
    assert!(matches!(StoryFrame::try_from_reader(&tag, &bytes, &mut pos), Err(UserError::ParseFrameError(_))));
}

#[test]
fn test_interface_new() {
    let interface = Interface::new();
    assert_eq!(interface.page_count(), 0);
    assert!(true);
}

#[test]
fn test_justify_text_with_ellipses() {
    let width = 33;

    let text = String::from("Hello, World!");
    let justified_text = justify_text_with_ellipses(width, &text);

    println!("{:?}", justified_text);

    assert_eq!(justified_text, format!("{:<33}", "Hello, World!"));

    let text = String::from("abcdefghijklmnopqrstuvwxyzasdfjkl;");
    let justified_text = justify_text_with_ellipses(33, &text);

    println!("{:?}", justified_text);

    assert_eq!(justified_text, "abcdefghijklmnopqrstuvwxyzasdf...");
}

#[test]
fn test_justify_text_replaces_control_characters() {
    let text = String::from("ab\ncdefghij");
    assert_eq!(justify_text_with_ellipses(8, &text), "ab\u{fffd}cd...");
    let text = String::from("a\tb");
    assert_eq!(justify_text_with_ellipses(10, &text), "a\u{fffd}b       ");
}

#[test]
fn test_create_homepage() {
    let homepage_res = HomePage::try_create(vec![]);

    println!("{:?}", homepage_res);
    assert!(homepage_res.is_ok());

    let mut test_db = DbState::new("test_dir".to_string(), "test_db".to_string(), "test_epic_dir".to_string());
    let _ = test_db.add_epic("A good test epic".to_string(), "A good test epic for testing".to_string());
    let _ = test_db.add_epic("Another good test epic".to_string(), "A good test epic for testing".to_string());

    let db_bytes = test_db.as_bytes();

    let homepage_res = HomePage::try_create(db_bytes);

    println!("{:?}", homepage_res);
    assert!(homepage_res.is_ok());

    let homepage = homepage_res.unwrap();
    assert_eq!(homepage.epic_frames().len(), 2);
}

#[test]
fn test_homepage_of_truncated_data_fails() {
    let mut test_db = DbState::new("d".to_string(), "f".to_string(), "e".to_string());
    let _ = test_db.add_epic("A good test epic".to_string(), "A good test epic for testing".to_string());
    let mut db_bytes = test_db.as_bytes();
    db_bytes.push(0);
    assert!(matches!(HomePage::try_create(db_bytes), Err(UserError::ReadFrameError(_))));
}

#[test]
fn test_try_create_epic_detail_page() {
    let mut test_epic = Epic::new(99, String::from("A Good Test Epic"), String::from("A good epic for testing"), Status::Open, String::from("test_epic_file_path"), HashMap::new());

    let test_story1 = Story::new(107, 99, String::from("Test Story"), String::from("Another good test story"), Status::Open);
    let test_story2 = Story::new(108, 99, String::from("Test Story"), String::from("Another good test story"), Status::Closed);

    assert!(test_epic.add_story(test_story1).is_ok());
    assert!(test_epic.add_story(test_story2).is_ok());

    let epic_detail_page_res = EpicDetailPage::try_create(test_epic.as_bytes());

    println!("{:?}", epic_detail_page_res);
    assert!(epic_detail_page_res.is_ok());

    let epic_detail_page = epic_detail_page_res.unwrap();
    assert_eq!(epic_detail_page.frame().id(), 99);
    assert_eq!(epic_detail_page.story_frames().len(), 2);
}

#[test]
fn test_try_create_story_detail_page() {
    let test_story = Story::new(0, 1, String::from("A test story"), String::from("A good story for testing purposes"), Status::Open);
    let story_bytes = test_story.as_bytes();

    let test_story_detail_page_res = StoryDetailPage::try_create(story_bytes);

    println!("{:?}", test_story_detail_page_res);
    assert!(test_story_detail_page_res.is_ok());

    let test_story_detail_page = test_story_detail_page_res.unwrap();

    println!("{:?}", test_story_detail_page);
    assert_eq!(test_story_detail_page.story_frame().id(), 0);
    assert_eq!(test_story_detail_page.story_frame().name(), &String::from("A test story"));
    assert_eq!(test_story_detail_page.story_frame().description(), &String::from("A good story for testing purposes"));
    assert_eq!(test_story_detail_page.story_frame().status(), Status::Open);
}

#[test]
fn test_story_detail_page_with_trailing_bytes_fails() {
    let test_story = Story::new(0, 1, String::from("A test story"), String::from("A good story"), Status::Open);
    let mut story_bytes = test_story.as_bytes();
    story_bytes.push(b'x');
    assert!(matches!(StoryDetailPage::try_create(story_bytes), Err(UserError::ReadFrameError(_))));
}

#[test]
fn test_home_page_parse_request() {
    let homepage = test_homepage();

    println!("Testing quit...");
    let user_input = "q";
    let mut request_input = Cursor::new(vec![1u8, 2, 3, 4, 5]);
    let request = run_dialog(homepage.parse_request(user_input), &mut request_input);
    println!("{:?}", request);
    assert!(request.is_ok());

    let request = request.unwrap();
    println!("{:?}", request);
    assert_eq!(request, Action::Quit);

    let user_input = "Q";
    let mut request_input = Cursor::new(vec![1u8, 2, 3, 4, 5]);
    let request = run_dialog(homepage.parse_request(user_input), &mut request_input);
    println!("{:?}", request);
    assert!(request.is_ok());

    let request = request.unwrap();
    println!("{:?}", request);
    assert_eq!(request, Action::Quit);

    println!("Testing epic creation...");
    let user_input = "c";
    let mut input_reader = Cursor::new(String::from("Test Epic\nA good epic for testing purposes\n").into_bytes());
    let request = run_dialog(homepage.parse_request(user_input), &mut input_reader);

    println!("{:?}", request);
    assert!(request.is_ok());

    let request = request.unwrap();
    println!("{:?}", request);
    assert!(request.is_request_parsed());

    let Action::RequestParsed(request_bytes) = request else { panic!("request should be parsed") };

    let (tag_buf, rest) = split_request(&request_bytes);
    let Ok(Event::AddEpic { peer_id: _, epic_name, epic_description }) = Event::try_create_add_epic(uuid::Uuid::new_v4().as_u128(), &tag_buf, &rest) else { panic!("event was not created correctly") };

    assert_eq!(epic_name.as_str(), "Test Epic");
    assert_eq!(epic_description.as_str(), "A good epic for testing purposes");

    let user_input = "C";
    let mut input_reader = Cursor::new(String::from("Test Epic\nA good epic for testing purposes").into_bytes());
    let request = run_dialog(homepage.parse_request(user_input), &mut input_reader);

    println!("{:?}", request);
    assert!(request.is_ok());

    let request = request.unwrap();
    println!("{:?}", request);
    assert!(request.is_request_parsed());

    let Action::RequestParsed(request_bytes) = request else { panic!("request should be parsed") };
    let (tag_buf, rest) = split_request(&request_bytes);
    let Ok(Event::AddEpic { peer_id: _, epic_name, epic_description }) = Event::try_create_add_epic(uuid::Uuid::new_v4().as_u128(), &tag_buf, &rest) else { panic!("event was not created correctly") };

    assert_eq!(epic_name.as_str(), "Test Epic");
    assert_eq!(epic_description.as_str(), "A good epic for testing purposes");

    println!("Testing get epic option...");
    let user_input = "97";
    let mut request_input = Cursor::new(vec![0u8]);
    let request = run_dialog(homepage.parse_request(user_input), &mut request_input);

    println!("{:?}", request);
    assert!(request.is_ok());

    let request = request.unwrap();
    println!("{:?}", request);
    assert!(request.is_request_parsed());

    let Action::RequestParsed(request_bytes) = request else { panic!("request should be parsed") };
    let (tag_buf, _rest) = split_request(&request_bytes);

    let Ok(Event::GetEpic { peer_id: _, epic_id }) = Event::try_create_get_epic(uuid::Uuid::new_v4().as_u128(), &tag_buf) else { panic!("event was not created correctly") };

    assert_eq!(epic_id, 97);

    let user_input = "djowalk";
    let mut request_input = Cursor::new(Vec::new());
    let request = run_dialog(homepage.parse_request(user_input), &mut request_input);
    println!("{:?}", request);
    assert!(request.is_err());
}

#[test]
fn test_epic_detail_page_parse_request() {
    let epic = Epic::new(0, String::from("Test Epic"), String::from("A goo epic for testing purposes"), Status::Open, String::new(), HashMap::new());

    let epic_detail_page_res = EpicDetailPage::try_create(epic.as_bytes());
    println!("{:?}", epic_detail_page_res);
    assert!(epic_detail_page_res.is_ok());

    let epic_detail_page = epic_detail_page_res.unwrap();

    println!("testing previous option...");
    let user_input = "p";
    let mut request_input = Cursor::new(vec![]);
    let request = run_dialog(epic_detail_page.parse_request(user_input), &mut request_input);
    println!("{:?}", request);
    assert!(request.is_ok());
    assert!(request.unwrap().is_previous_page());

    println!("testing update option...");
    let user_input = "u";
    let mut request_input = Cursor::new(String::from("3\n").into_bytes());
    let request = run_dialog(epic_detail_page.parse_request(user_input), &mut request_input);

    println!("{:?}", request);
    assert!(request.is_ok());

    let request = request.unwrap();
    println!("{:?}", request);
    let Action::RequestParsed(request_bytes) = request else { panic!("request should be parsed") };
    let (tag_buf, _rest) = split_request(&request_bytes);
    let Ok(Event::UpdateEpicStatus { peer_id: _, epic_id, status }) = Event::try_create_update_epic_status(uuid::Uuid::new_v4().as_u128(), &tag_buf) else { panic!("unable to parse request correctly") };

    assert_eq!(epic_id, 0);
    assert_eq!(status, Status::Closed);

    println!("testing delete epic option...");
    let user_input = "d";
    let mut request_input = Cursor::new(String::from("y\n").into_bytes());
    let request = run_dialog(epic_detail_page.parse_request(user_input), &mut request_input);

    println!("{:?}", user_input);
    assert!(request.is_ok());

    let request = request.unwrap();
    println!("{:?}", request);
    assert!(request.is_request_parsed());

    let Action::RequestParsed(request_bytes) = request else { panic!("request should be parsed") };
    let (tag_buf, _rest) = split_request(&request_bytes);
    let Ok(Event::DeleteEpic { peer_id: _, epic_id }) = Event::try_create_delete_epic(uuid::Uuid::new_v4().as_u128(), &tag_buf) else { panic!("unable to parse request correctly") };

    assert_eq!(epic_id, 0);

    println!("testing delete epic option with cancel...");
    let user_input = "d";
    let mut request_input = Cursor::new(String::from("n\n").into_bytes());
    let request = run_dialog(epic_detail_page.parse_request(user_input), &mut request_input);

    println!("{:?}", request);
    assert!(request.is_ok());

    let request = request.unwrap();
    println!("{:?}", request);
    assert!(request.is_refresh());

    println!("testing add story option...");
    let user_input = "c";
    let mut request_input = Cursor::new(String::from("Test Story\nA good story for testing purposes\n").into_bytes());
    let request = run_dialog(epic_detail_page.parse_request(user_input), &mut request_input);

    println!("{:?}", request);
    assert!(request.is_ok());

    let request = request.unwrap();
    println!("{:?}", request);
    assert!(request.is_request_parsed());

    let Action::RequestParsed(request_bytes) = request else { panic!("request should be parsed") };
    let (tag_buf, rest) = split_request(&request_bytes);
    let Ok(Event::AddStory { peer_id: _, epic_id, story_name, story_description }) = Event::try_create_add_story(uuid::Uuid::new_v4().as_u128(), &tag_buf, &rest) else { panic!("unable to parse request correctly") };

    assert_eq!(epic_id, 0);
    assert_eq!(story_name, String::from("Test Story"));
    assert_eq!(story_description, String::from("A good story for testing purposes"));

    println!("testing get story detail option...");
    let user_input = "97";
    let mut request_input = Cursor::new(vec![]);
    let request = run_dialog(epic_detail_page.parse_request(user_input), &mut request_input);

    println!("{:?}", request);
    assert!(request.is_ok());

    let request = request.unwrap();
    println!("{:?}", request);
    assert!(request.is_request_parsed());

    let Action::RequestParsed(request_bytes) = request else { panic!("request should be parsed") };
    let (tag_buf, _rest) = split_request(&request_bytes);
    let Ok(Event::GetStory { peer_id: _, epic_id, story_id }) = Event::try_create_get_story(uuid::Uuid::new_v4().as_u128(), &tag_buf) else { panic!("unable to parse event correctly") };

    assert_eq!(epic_id, 0);
    assert_eq!(story_id, 97);

    println!("testing bogus request option...");
    let user_option = "du98fd9e";
    let mut user_input = Cursor::new(String::from("basdfoiub\n").into_bytes());
    let request = run_dialog(epic_detail_page.parse_request(user_option), &mut user_input);
    println!("{:?}", request);
    assert!(request.is_err());
}

#[test]
fn test_story_detail_page_parse_request() {
    let test_story = Story::new(97, 1, String::from("Test story"), String::from("A good story for testing purposes"), Status::InProgress);
    let story_detail_page_res = StoryDetailPage::try_create(test_story.as_bytes());

    println!("{:?}", story_detail_page_res);
    assert!(story_detail_page_res.is_ok());

    let story_detail_page = story_detail_page_res.unwrap();

    println!("testing previous option...");
    let user_input = "p";
    let mut request_input = Cursor::new(vec![]);
    let request = run_dialog(story_detail_page.parse_request(user_input), &mut request_input);

    println!("{:?}", request);
    assert!(request.is_ok());

    let request = request.unwrap();
    println!("{:?}", request);
    assert!(request.is_previous_page());

    println!("testing update option...");
    let user_input = "u";
    let mut request_input = Cursor::new(String::from("2\n").into_bytes());
    let request = run_dialog(story_detail_page.parse_request(user_input), &mut request_input);

    println!("{:?}", request);
    assert!(request.is_ok());

    let request = request.unwrap();
    println!("{:?}", request);
    assert!(request.is_request_parsed());

    let Action::RequestParsed(request_bytes) = request else { panic!("request should be parsed") };
    let (tag_buf, _rest) = split_request(&request_bytes);

    let Ok(Event::UpdateStoryStatus { peer_id: _, epic_id, story_id, status }) = Event::try_create_update_story_status(uuid::Uuid::new_v4().as_u128(), &tag_buf) else { panic!("unable to parse event correctly") };

    assert_eq!(epic_id, 1);
    assert_eq!(story_id, 97);
    assert_eq!(status, Status::try_from_byte(2).expect("status should be created"));

    println!("testing delete option...");
    let user_input = "d";
    let mut request_input = Cursor::new(String::from("y\n").into_bytes());
    let request = run_dialog(story_detail_page.parse_request(user_input), &mut request_input);

    println!("{:?}", request);
    assert!(request.is_ok());

    let request = request.unwrap();
    println!("{:?}", request);
    assert!(request.is_request_parsed());

    let Action::RequestParsed(request_bytes) = request else { panic!("request should be parsed") };
    let (tag_buf, _rest) = split_request(&request_bytes);

    let Ok(Event::DeleteStory { peer_id: _, epic_id, story_id }) = Event::try_create_delete_story(uuid::Uuid::new_v4().as_u128(), &tag_buf) else { panic!("unable to parse event correctly") };

    assert_eq!(epic_id, 1);
    assert_eq!(story_id, 97);

    let user_input = "d";
    let mut request_input = Cursor::new(String::from("n\n").into_bytes());
    let request = run_dialog(story_detail_page.parse_request(user_input), &mut request_input);

    println!("{:?}", request);
    assert!(request.is_ok());

    let request = request.unwrap();
    println!("{:?}", request);
    assert!(request.is_refresh());

    println!("testing garbage input...");
    let user_input = "asdojie038";
    let mut request_input = Cursor::new(vec![2, 34, 5, 1]);

    let request = run_dialog(story_detail_page.parse_request(user_input), &mut request_input);

    println!("{:?}", request);
    assert!(request.is_err());
}

#[test]
fn test_epic_status_dialog_asks_again() {
    let epic = Epic::new(4, String::from("E"), String::from("D"), Status::Open, String::new(), HashMap::new());
    let page = EpicDetailPage::try_create(epic.as_bytes()).unwrap();
    // An out-of-range status, then text, then an empty line, then a valid status.
    let mut input = Cursor::new(String::from("7\nabc\n\n2\n").into_bytes());
    let step = page.parse_request("U");
    let Step::Read { show, .. } = &step else { panic!("a status is asked for") };
    assert_eq!(show[0], "please select the status you would like to update epic 4 with");
    assert_eq!(show[1], "Open        - 0");
    let Ok(Action::RequestParsed(bytes)) = run_dialog(step, &mut input) else { panic!("request should be parsed") };
    assert_eq!(bytes, Event::get_update_epic_status_tag(4, 2).to_vec());
}

#[test]
fn test_epic_delete_dialog_texts() {
    let epic = Epic::new(12, String::from("E"), String::from("D"), Status::Open, String::new(), HashMap::new());
    let page = EpicDetailPage::try_create(epic.as_bytes()).unwrap();
    let Step::Read { dialog, show, .. } = page.parse_request("d") else { panic!("a confirmation is asked for") };
    assert_eq!(show, vec!["are you sure you want to delete epic 12? (y|n)".to_string()]);
    let Step::Read { dialog, show, warn, .. } = dialog.resume(UserInput::Text("maybe\n".to_string())) else { panic!("asks again") };
    assert!(!warn);
    assert_eq!(show, vec!["please choose a valid option".to_string(), "are you sure you want to delete epic 12? (y|n)".to_string()]);
    let Step::Read { dialog, warn, .. } = dialog.resume(UserInput::Failed) else { panic!("asks again") };
    assert!(warn);
    assert!(matches!(dialog.resume(UserInput::Text("Y \n".to_string())), Step::Done(Ok(Action::RequestParsed(_)))));
}

#[test]
fn test_name_dialog_failures() {
    let homepage = test_homepage();
    let Step::Read { dialog, .. } = homepage.parse_request("c") else { panic!("a name is asked for") };
    assert!(matches!(dialog.resume(UserInput::Failed), Step::Done(Err(UserError::ParseInputError))));
}

#[test]
fn test_interface_parse_response_navigation() {
    let mut interface = Interface::new();
    let mut db = DbState::new("d".to_string(), "f".to_string(), "e".to_string());
    let epic_id = db.add_epic("Epic".to_string(), "About".to_string());

    // Connecting puts the home page on the stack.
    let response = Response::ClientAddedOk(db.as_bytes());
    let tag = response.encode();
    assert_eq!(Interface::expected_data_len(&tag), Some(db.as_bytes().len() as u64));
    let shown = interface.parse_response(&tag, db.as_bytes()).unwrap();
    assert_eq!(shown.message, "connected to database successfully");
    assert_eq!(interface.page_count(), 1);
    assert!(matches!(interface.top_page(), Page::Home(_)));

    // Asking for the epic pushes its page.
    let epic_bytes = db.get_epic(epic_id).unwrap().as_bytes();
    let tag = Response::GetEpicOk(epic_id, epic_bytes.clone()).encode();
    let shown = interface.parse_response(&tag, epic_bytes.clone()).unwrap();
    assert_eq!(shown.message, "get epic with id: 1 successful");
    assert_eq!(interface.page_count(), 2);

    // A story that does not exist brings the epic's page back above the home page.
    let tag = Response::StoryDoesNotExist(epic_id, 9, epic_bytes.clone()).encode();
    let shown = interface.parse_response(&tag, epic_bytes.clone()).unwrap();
    assert_eq!(shown.message, "story with id: 9 does not exist");
    assert_eq!(interface.page_count(), 2);
    assert!(matches!(interface.top_page(), Page::EpicDetail(_)));

    // A request that was not parsed shows the top page again.
    let tag = Response::RequestNotParsed.encode();
    assert_eq!(Interface::expected_data_len(&tag), None);
    let shown = interface.parse_response(&tag, vec![]).unwrap();
    assert_eq!(shown.message, "request not parsed, please try again");
    assert_eq!(interface.page_count(), 2);

    interface.previous_page();
    assert_eq!(interface.page_count(), 1);

    // A client that was already connected is an internal error.
    let tag = Response::ClientAlreadyExists.encode();
    assert!(matches!(interface.parse_response(&tag, vec![]), Err(UserError::InternalServerError)));

    // An epic that was added replaces the stack by the new home page.
    let id2 = db.add_epic("Second".to_string(), "More".to_string());
    let tag = Response::AddedEpicOk(id2, db.as_bytes()).encode();
    let shown = interface.parse_response(&tag, db.as_bytes()).unwrap();
    assert_eq!(shown.message, "epic added successfully, epic id: 2");
    assert_eq!(interface.page_count(), 1);

    // Broken data leaves the stack as it was.
    let tag = Response::GetEpicOk(1, vec![1, 2, 3]).encode();
    assert!(matches!(interface.parse_response(&tag, vec![1, 2, 3]), Err(UserError::ReadFrameError(_))));
    assert_eq!(interface.page_count(), 1);

    // An unknown kind of response.
    let tag = [0u8; 18];
    assert!(matches!(interface.parse_response(&tag, vec![]), Err(UserError::ParseResponseError(_))));
}

#[test]
fn test_user_error_messages() {
    assert_eq!(UserError::InvalidRequest.message(), "Invalid request, please choose a valid option");
    assert_eq!(UserError::ServerConnection("gone".to_string()).message(), "gone");
    assert_eq!(UserError::ParseInputError.message(), "Unable to parse input, please try again");
}

#[test]
fn test_action_predicates() {
    assert!(Action::Quit.is_quit());
    assert!(Action::PreviousPage.is_previous_page());
    assert!(Action::Refresh.is_refresh());
    assert!(Action::RequestParsed(vec![]).is_request_parsed());
    assert!(!Action::Quit.is_request_parsed());
}

#[test]
fn test_interface_story_status_update_shows_epic_page() {
    let mut interface = Interface::new();
    let mut db = DbState::new("d".to_string(), "f".to_string(), "e".to_string());
    let epic_id = db.add_epic("Epic".to_string(), "About".to_string());
    assert!(db.add_story(epic_id, "Story".to_string(), "Text".to_string()).is_ok());
    let tag = Response::ClientAddedOk(db.as_bytes()).encode();
    interface.parse_response(&tag, db.as_bytes()).unwrap();
    let epic_bytes = db.get_epic(epic_id).unwrap().as_bytes();
    let tag = Response::GetEpicOk(epic_id, epic_bytes.clone()).encode();
    interface.parse_response(&tag, epic_bytes.clone()).unwrap();
    let story_bytes = db.get_epic(epic_id).unwrap().get_story(2).unwrap().as_bytes();
    let tag = Response::GetStoryOk(2, story_bytes.clone()).encode();
    interface.parse_response(&tag, story_bytes).unwrap();
    assert_eq!(interface.page_count(), 3);

    let tag = Response::StoryStatusUpdateOk(epic_id, 2, epic_bytes.clone()).encode();
    let shown = interface.parse_response(&tag, epic_bytes).unwrap();
    assert_eq!(shown.message, "updated status of story with id: 2 was successful");
    assert_eq!(interface.page_count(), 2);
    assert!(matches!(interface.top_page(), Page::EpicDetail(_)));
}

#[test]
fn test_home_page_refuses_trailing_bytes() {
    let mut db = DbState::new("d".to_string(), "f".to_string(), "e".to_string());
    db.add_epic("Epic".to_string(), "About".to_string());
    for extra in 1..=12usize {
        let mut data = db.as_bytes();
        data.extend(std::iter::repeat(7u8).take(extra));
        assert!(matches!(HomePage::try_create(data), Err(UserError::ReadFrameError(_))));
    }
    assert!(matches!(HomePage::try_create(vec![1]), Err(UserError::ReadFrameError(_))));
    assert_eq!(HomePage::try_create(vec![]).unwrap().epic_frames().len(), 0);
}

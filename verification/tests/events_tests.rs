use async_jira_cli::events::Event;
use async_jira_cli::models::{DbError, Epic, Status};
use std::collections::HashMap;
use uuid::Uuid;

#[test]
fn test_add_epic_tag() {
    let epic_name = "Test Epic".to_string();
    let epic_description = "A good test epic".to_string();
    let tag = Event::add_epic_tag(&epic_name, &epic_description);
    println!("{:?}", tag);
    assert_eq!(tag, [1, 9, 0, 0, 0, 16, 0, 0, 0, 0, 0, 0, 0]);
}

#[test]
fn test_try_create_add_epic() {
    let epic = Epic::new(0, String::from("A Test Epic"), String::from("A good test epic"), Status::Open, String::new(), HashMap::new());
    let mut bytes = vec![];
    let tag = Event::add_epic_tag(epic.name(), epic.description());
    let test_client_id = Uuid::new_v4().as_u128();

    bytes.extend_from_slice(epic.name().as_bytes());
    bytes.extend_from_slice(epic.description().as_bytes());

    let add_epic_event_res = Event::try_create_add_epic(test_client_id, &tag, &bytes);
    println!("{:?}", add_epic_event_res);

    assert!(add_epic_event_res.is_ok());
    let add_epic_event = add_epic_event_res.unwrap();
    let Event::AddEpic { peer_id, epic_name, epic_description } = add_epic_event else { panic!("epic values should have been parsed correctly") };

    assert_eq!(peer_id, test_client_id);
    assert_eq!(epic_name, epic.name().as_str().to_owned());
    assert_eq!(epic_description, epic.description().as_str().to_owned());
}

#[test]
fn test_delete_epic_tag() {
    let epic_id = 93;
    let tag = Event::delete_epic_tag(epic_id);
    println!("{:?}", tag);
    assert_eq!(tag, [2, 93, 0, 0, 0, 0, 0, 0, 0, 0, 0, 0, 0]);
}

#[test]
fn test_try_create_delete_epic_event() {
    let test_epic_id = 93;
    let tag = Event::delete_epic_tag(test_epic_id);
    let test_client_id = Uuid::new_v4().as_u128();

    let delete_epic_event_res = Event::try_create_delete_epic(test_client_id, &tag);

    println!("{:?}", delete_epic_event_res);
    assert!(delete_epic_event_res.is_ok());

    let Event::DeleteEpic { peer_id, epic_id } = delete_epic_event_res.unwrap() else { panic!("event should have been parsed correctly") };

    assert_eq!(peer_id, test_client_id);
    assert_eq!(epic_id, test_epic_id);
}

#[test]
fn test_get_epic_tag() {
    let test_epic_id = 2353;
    let tag = Event::get_epic_tag(test_epic_id);
    println!("{:?}", tag);
    assert_eq!(tag, [4, 49, 9, 0, 0, 0, 0, 0, 0, 0, 0, 0, 0])
}

#[test]
fn test_try_create_get_epic_event() {
    let test_epic_id = 2353;
    let tag = Event::get_epic_tag(test_epic_id);
    let test_client_id = Uuid::new_v4().as_u128();

    let get_epic_event_res = Event::try_create_get_epic(test_client_id, &tag);

    println!("{:?}", get_epic_event_res);
    assert!(get_epic_event_res.is_ok());

    let Event::GetEpic { peer_id, epic_id } = get_epic_event_res.unwrap() else { panic!("unable to parse event correctly") };

    assert_eq!(peer_id, test_client_id);
    assert_eq!(epic_id, test_epic_id);
}

#[test]
fn test_get_updated_epic_status_tag() {
    let test_epic_id = 2353;
    let status = 1;
    let tag = Event::get_update_epic_status_tag(test_epic_id, status);

    println!("{:?}", tag);
    assert_eq!(tag, [8, 49, 9, 0, 0, 1, 0, 0, 0, 0, 0, 0, 0]);
}

#[test]
fn test_try_create_update_epic_status_event() {
    let test_epic_id = 2353;
    let test_status = 1;
    let tag = Event::get_update_epic_status_tag(test_epic_id, test_status);
    let test_client_id = Uuid::new_v4().as_u128();

    let update_epic_status_event_res = Event::try_create_update_epic_status(test_client_id, &tag);

    println!("{:?}", update_epic_status_event_res);
    assert!(update_epic_status_event_res.is_ok());

    let Event::UpdateEpicStatus { peer_id, epic_id, status } = update_epic_status_event_res.unwrap() else { panic!("unable t parse event correctly") };

    assert_eq!(peer_id, test_client_id);
    assert_eq!(epic_id, test_epic_id);
    assert_eq!(status, Status::try_from_byte(test_status).expect("status should be created successfully"));
}

#[test]
fn test_get_story_tag() {
    let test_epic_id = 2353;
    let test_story_id = 4798;
    let tag = Event::get_story_tag(test_epic_id, test_story_id);

    println!("{:?}", tag);
    assert_eq!(tag, [16, 49, 9, 0, 0, 190, 18, 0, 0, 0, 0, 0, 0]);
}

#[test]
fn test_try_create_get_story_event() {
    let test_epic_id = 2353;
    let test_story_id = 4798;
    let tag = Event::get_story_tag(test_epic_id, test_story_id);
    let test_client_id = Uuid::new_v4().as_u128();

    let get_story_event_res = Event::try_create_get_story(test_client_id, &tag);

    println!("{:?}", get_story_event_res);
    assert!(get_story_event_res.is_ok());

    let Event::GetStory { peer_id, epic_id, story_id } = get_story_event_res.unwrap() else { panic!("unable to parse event correctly") };

    assert_eq!(peer_id, test_client_id);
    assert_eq!(epic_id, test_epic_id);
    assert_eq!(story_id, test_story_id);
}

#[test]
fn test_get_add_story_tag() {
    let test_epic_id = 2353;
    let story_name = String::from("Test Story");
    let story_description = String::from("A good test Story");
    let tag = Event::get_add_story_tag(test_epic_id, &story_name, &story_description);

    println!("{:?}", tag);
    assert_eq!(tag, [32, 49, 9, 0, 0, 10, 0, 0, 0, 17, 0, 0, 0]);
}

#[test]
fn test_try_create_add_story_event() {
    let test_epic_id = 2353;
    let test_story_name = String::from("Test Story");
    let test_story_description = String::from("A good test Story");
    let tag = Event::get_add_story_tag(test_epic_id, &test_story_name, &test_story_description);
    let test_client_id = Uuid::new_v4().as_u128();
    let mut bytes = test_story_name.as_bytes().to_vec();
    bytes.extend_from_slice(test_story_description.as_bytes());

    let add_story_event_res = Event::try_create_add_story(test_client_id, &tag, &bytes);

    println!("{:?}", add_story_event_res);
    assert!(add_story_event_res.is_ok());

    let Event::AddStory { peer_id, epic_id, story_name, story_description } = add_story_event_res.unwrap() else { panic!("unable to parse event correctly") };

    assert_eq!(peer_id, test_client_id);
    assert_eq!(epic_id, test_epic_id);
    assert_eq!(story_name, test_story_name);
    assert_eq!(story_description, test_story_description);
}

#[test]
fn test_get_delete_story_tag() {
    let tag = Event::get_delete_story_tag(2353, 4798);
    assert_eq!(tag, [64, 49, 9, 0, 0, 190, 18, 0, 0, 0, 0, 0, 0]);
}

#[test]
fn test_try_create_delete_story_event() {
    let tag = Event::get_delete_story_tag(2353, 4798);
    let test_client_id = Uuid::new_v4().as_u128();
    let Ok(Event::DeleteStory { peer_id, epic_id, story_id }) = Event::try_create_delete_story(test_client_id, &tag) else { panic!("unable to parse event correctly") };
    assert_eq!(peer_id, test_client_id);
    assert_eq!(epic_id, 2353);
    assert_eq!(story_id, 4798);
}

#[test]
fn test_get_update_story_status_tag() {
    let tag = Event::get_update_story_status_tag(2353, 4798, 3);
    assert_eq!(tag, [128, 49, 9, 0, 0, 190, 18, 0, 0, 3, 0, 0, 0]);
}

#[test]
fn test_try_create_update_story_status_event() {
    let tag = Event::get_update_story_status_tag(2353, 4798, 3);
    let test_client_id = Uuid::new_v4().as_u128();
    let Ok(Event::UpdateStoryStatus { peer_id, epic_id, story_id, status }) = Event::try_create_update_story_status(test_client_id, &tag) else { panic!("unable to parse event correctly") };
    assert_eq!(peer_id, test_client_id);
    assert_eq!(epic_id, 2353);
    assert_eq!(story_id, 4798);
    assert_eq!(status, Status::Closed);
}

#[test]
fn test_try_create_dispatches_on_the_lowest_request_bit() {
    // Bits 1 (delete epic) and 2 (get epic) are both set: the lowest wins.
    let mut tag = Event::get_epic_tag(7);
    tag[0] |= 2;
    let Ok(Event::DeleteEpic { peer_id, epic_id }) = Event::try_create(5, &tag, &[]) else { panic!("expected a delete request") };
    assert_eq!((peer_id, epic_id), (5, 7));
}

#[test]
fn test_try_create_without_request_bit_does_not_exist() {
    let tag = [0u8; 13];
    assert!(matches!(Event::try_create(1, &tag, &[]), Err(DbError::DoesNotExist(_))));
}

#[test]
fn test_try_create_short_body_is_parse_error() {
    let name = "Epic".to_string();
    let description = "Description".to_string();
    let tag = Event::add_epic_tag(&name, &description);
    assert_eq!(Event::body_len(&tag), 15);
    let body = b"EpicDescr".to_vec();
    assert!(matches!(Event::try_create(1, &tag, &body), Err(DbError::ParseError(_))));
    // The same request, whole, parses.
    let body = b"EpicDescription".to_vec();
    assert!(matches!(Event::try_create(1, &tag, &body), Ok(Event::AddEpic { .. })));
}

#[test]
fn test_try_create_invalid_utf8_is_parse_error() {
    let name = "ab".to_string();
    let description = "c".to_string();
    let tag = Event::get_add_story_tag(3, &name, &description);
    let body = vec![0xff, 0xfe, b'c'];
    assert!(matches!(Event::try_create(1, &tag, &body), Err(DbError::ParseError(_))));
}

#[test]
fn test_try_create_invalid_status_is_parse_error() {
    let tag = Event::get_update_epic_status_tag(3, 4);
    assert!(matches!(Event::try_create(1, &tag, &[]), Err(DbError::ParseError(_))));
    let tag = Event::get_update_story_status_tag(3, 4, 200);
    assert!(matches!(Event::try_create(1, &tag, &[]), Err(DbError::ParseError(_))));
}

#[test]
fn test_from_request_falls_back_to_unparseable() {
    let tag = Event::get_update_epic_status_tag(3, 9);
    assert!(matches!(Event::from_request(42, &tag, &[]), Event::UnparseableEvent { peer_id: 42 }));
    let tag = Event::get_epic_tag(3);
    assert!(matches!(Event::from_request(42, &tag, &[]), Event::GetEpic { peer_id: 42, epic_id: 3 }));
}

#[test]
fn test_body_len_of_requests_without_texts_is_zero() {
    assert_eq!(Event::body_len(&Event::delete_epic_tag(1)), 0);
    assert_eq!(Event::body_len(&Event::get_story_tag(1, 2)), 0);
    let name = "Story name".to_string();
    let description = "Its description".to_string();
    assert_eq!(Event::body_len(&Event::get_add_story_tag(1, &name, &description)), 25);
}

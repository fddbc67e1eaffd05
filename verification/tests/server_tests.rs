use async_jira_cli::events::Event;
use async_jira_cli::models::{DbError, DbState, Status};
use async_jira_cli::response::Response;
use async_jira_cli::server::{Broker, Handled, Persist};
use async_jira_cli::utils::AsBytes;

/// Handles an event as the server does when every epic file can be written.
fn handle(broker: &mut Broker, event: Event) -> (Response, Persist) {
    match broker.handle_event(event) {
        Handled::Reply(reply, persist) => (reply, persist),
        Handled::WriteEpicFirst(epic_id, story_id) => broker.story_added_reply(epic_id, story_id, true),
    }
}

fn broker_with_client(peer: u128) -> Broker {
    let mut broker = Broker::new(DbState::new("db".to_string(), "db.txt".to_string(), "epics".to_string()));
    let reply = broker.handle_new_client(peer);
    assert!(matches!(reply, Response::ClientAddedOk(ref d) if d.is_empty()));
    broker
}

#[test]
fn test_new_client_twice_is_refused() {
    let mut broker = broker_with_client(1);
    assert!(matches!(broker.handle_new_client(1), Response::ClientAlreadyExists));
    assert!(broker.is_connected(1));
    assert!(!broker.is_connected(2));
}

#[test]
fn test_added_epic_reads_back() {
    let mut broker = broker_with_client(7);
    let (reply, persist) = handle(&mut broker, Event::AddEpic { peer_id: 7, epic_name: "E".to_string(), epic_description: "D".to_string() });
    let Response::AddedEpicOk(id, data) = reply else { panic!("epic should be added") };
    assert_eq!(id, 1);
    assert_eq!(persist, Persist::Database);
    assert_eq!(data, broker.db().as_bytes());
    let (reply, persist) = handle(&mut broker, Event::GetEpic { peer_id: 7, epic_id: id });
    let Response::GetEpicOk(i, bytes) = reply else { panic!("epic should be there") };
    assert_eq!(i, id);
    assert_eq!(bytes, broker.db().get_epic(id).unwrap().as_bytes());
    assert_eq!(persist, Persist::Nothing);
}

#[test]
fn test_requests_for_missing_epics_change_nothing() {
    let mut broker = broker_with_client(3);
    for event in [
        Event::DeleteEpic { peer_id: 3, epic_id: 9 },
        Event::GetEpic { peer_id: 3, epic_id: 9 },
        Event::UpdateEpicStatus { peer_id: 3, epic_id: 9, status: Status::Closed },
        Event::GetStory { peer_id: 3, epic_id: 9, story_id: 1 },
        Event::DeleteStory { peer_id: 3, epic_id: 9, story_id: 1 },
        Event::UpdateStoryStatus { peer_id: 3, epic_id: 9, story_id: 1, status: Status::Open },
        Event::AddStory { peer_id: 3, epic_id: 9, story_name: "S".to_string(), story_description: "T".to_string() },
    ] {
        let (reply, persist) = handle(&mut broker, event);
        assert!(matches!(reply, Response::EpicDoesNotExist(9, _)));
        assert_eq!(persist, Persist::Nothing);
        assert_eq!(broker.db().last_unique_id(), 0);
    }
}

#[test]
fn test_story_lifecycle() {
    let mut broker = broker_with_client(5);
    let (_, _) = handle(&mut broker, Event::AddEpic { peer_id: 5, epic_name: "E".to_string(), epic_description: "D".to_string() });
    let (reply, persist) = handle(&mut broker, Event::AddStory { peer_id: 5, epic_id: 1, story_name: "S".to_string(), story_description: "T".to_string() });
    assert!(matches!(reply, Response::AddedStoryOk(1, 2, _)));
    assert_eq!(persist, Persist::Epic(1));

    let (reply, _) = handle(&mut broker, Event::UpdateStoryStatus { peer_id: 5, epic_id: 1, story_id: 2, status: Status::Resolved });
    let Response::StoryStatusUpdateOk(1, 2, bytes) = reply else { panic!("status should be updated") };
    assert_eq!(bytes, broker.db().get_epic(1).unwrap().as_bytes());
    assert_eq!(broker.db().get_epic(1).unwrap().get_story(2).unwrap().status(), Status::Resolved);

    let (reply, persist) = handle(&mut broker, Event::GetStory { peer_id: 5, epic_id: 1, story_id: 3 });
    assert!(matches!(reply, Response::StoryDoesNotExist(1, 3, _)));
    assert_eq!(persist, Persist::Nothing);

    let (reply, persist) = handle(&mut broker, Event::DeleteStory { peer_id: 5, epic_id: 1, story_id: 2 });
    assert!(matches!(reply, Response::DeletedStoryOk(1, 2, _)));
    assert_eq!(persist, Persist::Epic(1));
    assert!(broker.db().get_epic(1).unwrap().get_story(2).is_none());

    let (reply, _) = handle(&mut broker, Event::UpdateEpicStatus { peer_id: 5, epic_id: 1, status: Status::Closed });
    assert!(matches!(reply, Response::EpicStatusUpdateOk(1, _)));
    assert_eq!(broker.db().get_epic(1).unwrap().status(), Status::Closed);

    let (reply, persist) = handle(&mut broker, Event::DeleteEpic { peer_id: 5, epic_id: 1 });
    assert!(matches!(reply, Response::DeletedEpicOk(1, ref d) if d.is_empty()));
    assert_eq!(persist, Persist::Database);
}

#[test]
fn test_unparseable_event_is_answered() {
    let mut broker = broker_with_client(8);
    let (reply, persist) = handle(&mut broker, Event::UnparseableEvent { peer_id: 8 });
    assert!(matches!(reply, Response::RequestNotParsed));
    assert_eq!(persist, Persist::Nothing);
}

#[test]
fn test_can_handle_needs_a_connected_client() {
    let broker = broker_with_client(8);
    assert!(broker.can_handle(&Event::GetEpic { peer_id: 8, epic_id: 1 }));
    assert!(!broker.can_handle(&Event::GetEpic { peer_id: 9, epic_id: 1 }));
    assert!(broker.can_handle(&Event::NewClient { peer_id: 9 }));
}

#[test]
fn test_disconnect() {
    let mut broker = broker_with_client(4);
    assert!(broker.disconnect(4).is_ok());
    assert!(!broker.is_connected(4));
    assert!(matches!(broker.disconnect(4), Err(DbError::DoesNotExist(_))));
}

#[test]
fn test_deleted_epic_and_story_are_gone() {
    let mut broker = broker_with_client(6);
    let (_, _) = handle(&mut broker, Event::AddEpic { peer_id: 6, epic_name: "E".to_string(), epic_description: "D".to_string() });
    let (_, _) = handle(&mut broker, Event::AddStory { peer_id: 6, epic_id: 1, story_name: "S".to_string(), story_description: "T".to_string() });
    let (_, _) = handle(&mut broker, Event::DeleteStory { peer_id: 6, epic_id: 1, story_id: 2 });
    let (reply, _) = handle(&mut broker, Event::GetStory { peer_id: 6, epic_id: 1, story_id: 2 });
    let Response::StoryDoesNotExist(1, 2, bytes) = reply else { panic!("story should be gone") };
    assert_eq!(bytes, broker.db().get_epic(1).unwrap().as_bytes());
    let (_, _) = handle(&mut broker, Event::DeleteEpic { peer_id: 6, epic_id: 1 });
    let (reply, _) = handle(&mut broker, Event::GetEpic { peer_id: 6, epic_id: 1 });
    assert!(matches!(reply, Response::EpicDoesNotExist(1, ref d) if d.is_empty()));
}

#[test]
fn test_status_updates_read_back() {
    let mut broker = broker_with_client(2);
    let (_, _) = handle(&mut broker, Event::AddEpic { peer_id: 2, epic_name: "E".to_string(), epic_description: "D".to_string() });
    let (_, _) = handle(&mut broker, Event::AddStory { peer_id: 2, epic_id: 1, story_name: "S".to_string(), story_description: "T".to_string() });
    let (_, _) = handle(&mut broker, Event::UpdateEpicStatus { peer_id: 2, epic_id: 1, status: Status::InProgress });
    let (reply, _) = handle(&mut broker, Event::GetEpic { peer_id: 2, epic_id: 1 });
    let Response::GetEpicOk(1, bytes) = reply else { panic!("epic should be there") };
    assert_eq!(bytes[12], 1);
    let (_, _) = handle(&mut broker, Event::UpdateStoryStatus { peer_id: 2, epic_id: 1, story_id: 2, status: Status::Closed });
    let (reply, _) = handle(&mut broker, Event::GetStory { peer_id: 2, epic_id: 1, story_id: 2 });
    let Response::GetStoryOk(2, bytes) = reply else { panic!("story should be there") };
    assert_eq!(bytes[16], 3);
    assert_eq!(bytes[17..], b"ST"[..]);
}

#[test]
fn test_added_story_waits_for_its_epic_file() {
    let mut broker = broker_with_client(11);
    let (_, _) = handle(&mut broker, Event::AddEpic { peer_id: 11, epic_name: "E".to_string(), epic_description: "D".to_string() });
    let handled = broker.handle_event(Event::AddStory { peer_id: 11, epic_id: 1, story_name: "S".to_string(), story_description: "T".to_string() });
    assert!(matches!(handled, Handled::WriteEpicFirst(1, 2)));
    assert!(broker.db().get_epic(1).unwrap().get_story(2).is_some());

    // The epic's file could not be written: the client is told that the epic does not exist,
    // and nothing more is written; the story stays added.
    let (reply, persist) = broker.story_added_reply(1, 2, false);
    let Response::EpicDoesNotExist(1, bytes) = reply else { panic!("the write failure should be answered") };
    assert_eq!(bytes, broker.db().as_bytes());
    assert_eq!(persist, Persist::Nothing);
    assert_eq!(broker.db().last_unique_id(), 2);

    // Written: the client gets the story's id and the bytes of the epic.
    let (reply, persist) = broker.story_added_reply(1, 2, true);
    let Response::AddedStoryOk(1, 2, bytes) = reply else { panic!("the story should be added") };
    assert_eq!(bytes, broker.db().get_epic(1).unwrap().as_bytes());
    assert_eq!(persist, Persist::Epic(1));
}

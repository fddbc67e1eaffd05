use async_jira_cli::models::{BytesEncode, DbError, DbState, Epic, Status, Story};
use async_jira_cli::utils::AsBytes;
use std::collections::HashMap;

const DB_DIR: &str = "/srv/async_jira_cli/test_database";

/// Writes a database as the server does: the text of its own file, and the bytes of the file
/// of each epic, by path.
fn write_db(db: &DbState) -> (String, HashMap<String, Vec<u8>>) {
    let text = db.db_file_contents();
    let mut files = HashMap::new();
    for line in text.lines() {
        let (id, path) = DbState::parse_db_line(line.to_string()).expect("written lines parse");
        files.insert(path, db.get_epic(id).expect("written epics exist").as_bytes());
    }
    (text, files)
}

/// Loads a database as the server does, from the text of its file and the epic files.
fn load_db(
    db_dir: &str,
    db_file_name: &str,
    epic_dir: &str,
    written: &(String, HashMap<String, Vec<u8>>),
) -> Result<DbState, DbError> {
    let (text, files) = written;
    let mut max_id = 0;
    let mut entries = vec![];
    for line in text.lines() {
        let (epic_id, epic_file_path) = DbState::parse_db_line(line.to_string())?;
        let bytes = files.get(&epic_file_path).cloned().unwrap_or_default();
        let epic = Epic::load(epic_file_path, &bytes, &mut max_id)?;
        entries.push((epic_id, epic));
    }
    Ok(DbState::from_entries(db_dir.to_string(), db_file_name.to_string(), epic_dir.to_string(), entries, max_id))
}

/// Writes an epic's file and loads it again.
fn write_and_load_epic(epic: &Epic, path: &str) -> Result<Epic, DbError> {
    let bytes = epic.as_bytes();
    let mut dummy_id = 0;
    Epic::load(path.to_string(), &bytes, &mut dummy_id)
}

#[test]
fn mod_create_story_should_work() {
    let story = Story::new(1, 0, String::from("Test Story 1"), String::from("A simple test story"), Status::Open);
    println!("{:?}", story);
    assert!(true)
}

#[test]
fn mod_story_encode_decode_should_work() {
    let story = Story::new(1, 0, String::from("Test Story 1"), String::from("A simple test story"), Status::Open);
    let story_tag = story.encode();

    println!("{:?}", story_tag);

    assert_eq!(story_tag, [1, 0, 0, 0, 0, 0, 0, 0, 12, 0, 0, 0, 19, 0, 0, 0, 0]);

    let (story_id, epic_id, story_name_len, story_description_len, story_status_byte) =
        <Story as BytesEncode>::decode(&story_tag);

    assert_eq!(1, story_id);
    assert_eq!(0, epic_id);
    assert_eq!(12, story_name_len);
    assert_eq!(19, story_description_len);
    assert_eq!(0, story_status_byte);
}

#[test]
fn mod_create_epic_should_work() {
    let epic = Epic::new(99, String::from("Test Epic 99"), String::from("A simple test epic"), Status::Open, String::new(), HashMap::new());
    println!("{:?}", epic);
    assert!(true);
}

#[test]
fn mod_epic_encode_decode_should_work() {
    let epic = Epic::new(1, String::from("Test Epic 1"), String::from("A simple test epic"), Status::Open, String::new(), HashMap::new());

    let epic_tag = epic.encode();

    println!("{:?}", epic_tag);

    assert_eq!(epic_tag, [1, 0, 0, 0, 11, 0, 0, 0, 18, 0, 0, 0, 0]);

    let (epic_id, epic_name_len, epic_description_len, epic_status_byte) = Epic::decode(&epic_tag);

    assert_eq!(epic_id, 1);
    assert_eq!(epic_name_len, 11);
    assert_eq!(epic_description_len, 18);
    assert_eq!(epic_status_byte, 0);
}

#[test]
fn mod_test_epic_create_write_and_load_from_file() {
    let test_file_path = format!("{}/test_epics/epic99.txt", DB_DIR);

    let epic = Epic::new(99, String::from("Test Epic 99"), String::from("A simple test epic"), Status::Open, test_file_path.clone(), HashMap::new());

    println!("{:?}", epic);

    let loaded_epic_result = write_and_load_epic(&epic, &test_file_path);
    println!("{:?}", loaded_epic_result);
    assert!(loaded_epic_result.is_ok());

    let loaded_epic = loaded_epic_result.unwrap();
    assert_eq!(epic, loaded_epic);
}

#[test]
fn mod_test_epic_create_write_load_and_add_stories() {
    let test_file_path = format!("{}/test_epics/epic2.txt", DB_DIR);

    let mut epic = Epic::new(100, String::from("Test Epic 2"), String::from("A simple test epic"), Status::Open, test_file_path.clone(), HashMap::new());

    println!("{:?}", epic);

    let test_story1 = Story::new(3, 100, String::from("A Test Story"), String::from("A simple test story"), Status::Open);
    let test_story2 = Story::new(4, 100, String::from("A test Story"), String::from("A simple test story"), Status::Open);
    let test_story3 = Story::new(5, 100, String::from("A different test Story"), String::from("Another simple test story"), Status::InProgress);

    assert!(epic.add_story(test_story1.clone()).is_ok());
    assert!(epic.add_story(test_story2.clone()).is_ok());
    assert!(epic.add_story(test_story3.clone()).is_ok());

    println!("{:?}", epic);

    let mut dummy_id = 0;
    let loaded_epic_result = Epic::load(test_file_path.clone(), &epic.as_bytes(), &mut dummy_id);

    println!("{:?}", loaded_epic_result);

    assert!(loaded_epic_result.is_ok());

    let mut loaded_epic = loaded_epic_result.unwrap();

    assert_eq!(loaded_epic, epic);
    assert_eq!(dummy_id, 100);

    assert!(epic.add_story(test_story1.clone()).is_err());
    assert!(epic.add_story(test_story2.clone()).is_err());
    assert!(epic.add_story(test_story3.clone()).is_err());

    assert!(loaded_epic.add_story(test_story1.clone()).is_err());
    assert!(loaded_epic.add_story(test_story2.clone()).is_err());
    assert!(loaded_epic.add_story(test_story3.clone()).is_err());
}

#[test]
fn mod_test_epic_delete_story() {
    let test_file_path = format!("{}/test_epics/epic101.txt", DB_DIR);

    let mut epic = Epic::new(101, String::from("Test Epic 101"), String::from("A simple test epic"), Status::Open, test_file_path.clone(), HashMap::new());

    let test_story1 = Story::new(6, 101, String::from("A Test Story"), String::from("A simple test story"), Status::Open);
    let test_story2 = Story::new(7, 101, String::from("A test Story"), String::from("A simple test story"), Status::Open);
    let test_story3 = Story::new(8, 101, String::from("A different test Story"), String::from("Another simple test story"), Status::InProgress);

    assert!(epic.add_story(test_story1.clone()).is_ok());
    assert!(epic.add_story(test_story2.clone()).is_ok());
    assert!(epic.add_story(test_story3.clone()).is_ok());

    println!("{:?}", epic);

    let loaded_epic_result = write_and_load_epic(&epic, &test_file_path);

    assert!(loaded_epic_result.is_ok());

    let mut loaded_epic = loaded_epic_result.unwrap();

    println!("{:?}", loaded_epic);

    assert_eq!(loaded_epic, epic);

    assert!(epic.delete_story(6).is_ok());
    assert!(loaded_epic.delete_story(6).is_ok());

    println!("{:?}", epic);
    println!("{:?}", loaded_epic);

    assert_eq!(loaded_epic, epic);

    assert!(epic.delete_story(6).is_err());
    assert!(loaded_epic.delete_story(6).is_err());
}

#[test]
fn mod_test_epic_update_status() {
    let test_file_path = format!("{}/test_epics/epic102.txt", DB_DIR);

    let mut epic = Epic::new(102, String::from("Test Epic 102"), String::from("A simple test epic"), Status::Open, test_file_path.clone(), HashMap::new());

    println!("{:?}", epic);

    let loaded_epic_result = write_and_load_epic(&epic, &test_file_path);

    println!("{:?}", loaded_epic_result);

    assert!(loaded_epic_result.is_ok());

    let mut loaded_epic = loaded_epic_result.unwrap();

    println!("{:?}", loaded_epic);

    assert_eq!(epic, loaded_epic);

    epic.update_status(Status::InProgress);

    assert_eq!(epic.status(), Status::InProgress);

    loaded_epic.update_status(Status::InProgress);

    assert_eq!(loaded_epic, epic);
}

#[test]
fn mod_test_create_db_state_should_work() {
    let db_state = DbState::new(DB_DIR.to_string(), "test_db.txt".to_string(), "test_epics".to_string());

    println!("{:?}", db_state);
    assert!(true);
}

#[test]
fn mod_test_create_db_state_add_epics_write_and_read() {
    let mut db_state = DbState::new(DB_DIR.to_string(), "test_db1.txt".to_string(), "test_epics1".to_string());

    assert_eq!(db_state.add_epic("Test Epic".to_string(), "A simple test epic".to_string()), 1);
    assert_eq!(db_state.add_epic("Test Epic".to_string(), "A simple test epic".to_string()), 2);
    assert_eq!(db_state.add_epic("Test Epic".to_string(), "A simple test epic".to_string()), 3);

    println!("{:?}", db_state);

    let written = write_db(&db_state);

    let db_state_prime_result = load_db(DB_DIR, "test_db1.txt", "test_epics1", &written);

    println!("{:?}", db_state_prime_result);

    assert!(db_state_prime_result.is_ok());

    let db_state_prime = db_state_prime_result.unwrap();

    assert_eq!(db_state, db_state_prime);
}

#[test]
fn mod_test_db_state_add_delete_epic() {
    let mut db_state = DbState::new(DB_DIR.to_string(), "test_db2.txt".to_string(), "test_epics2".to_string());

    println!("{:?}", db_state);

    db_state.add_epic("Test Epic".to_string(), "A specially added test epic".to_string());

    println!("{:?}", db_state);

    let written = write_db(&db_state);

    let mut db_state = load_db(DB_DIR, "test_db2.txt", "test_epics2", &written).expect("should load");

    println!("{:?}", db_state);

    let cur_max_id = db_state.last_unique_id();

    assert!(db_state.contains_epic(cur_max_id));

    assert!(db_state.delete_epic(cur_max_id).is_ok());

    assert!(db_state.delete_epic(cur_max_id).is_err());

    let written = write_db(&db_state);

    let db_state_loaded = load_db(DB_DIR, "test_db2.txt", "test_epics2", &written).expect("should load");

    println!("{:?}", db_state_loaded);

    assert!(!db_state_loaded.contains_epic(cur_max_id));
}

#[test]
fn mod_test_db_state_add_delete_story() {
    let empty = DbState::new(DB_DIR.to_string(), "test_db.txt".to_string(), "test_epics".to_string());
    let mut db_state = load_db(DB_DIR, "test_db.txt", "test_epics", &write_db(&empty)).expect("should load");

    println!("{:?}", db_state);

    let cur_epic_id = db_state.add_epic("Test Epic".to_string(), "A test Epic for adding/deleting stories".to_string());

    println!("{:?}", cur_epic_id);

    assert!(db_state.add_story(cur_epic_id, "Test Story".to_string(), "A Test story for adding/deleting stories".to_string()).is_ok());
    assert!(db_state.add_story(cur_epic_id, "Test Story".to_string(), "A Test story for adding/deleting stories".to_string()).is_ok());
    assert!(db_state.add_story(cur_epic_id, "Test Story".to_string(), "A Test story for adding/deleting stories".to_string()).is_ok());

    println!("{:?}", db_state);

    let written = write_db(&db_state);

    let mut db_state = load_db(DB_DIR, "test_db.txt", "test_epics", &written).expect("should load");

    println!("{:?}", db_state);

    assert!(db_state.contains_epic(cur_epic_id));

    let cur_story_id = db_state.last_unique_id();

    assert!(db_state.delete_story(cur_epic_id, cur_story_id).is_ok());

    assert!(db_state.delete_story(cur_epic_id, cur_story_id).is_err());
}

#[test]
fn test_story_as_bytes() {
    let story = Story::new(1, 101, "S1".to_string(), "TS1".to_string(), Status::Open);

    let encoding = story.encode();
    println!("{:?}", encoding);

    let bytes = story.as_bytes();
    println!("{:?}", bytes);

    assert_eq!(bytes, vec![1, 0, 0, 0, 101, 0, 0, 0, 2, 0, 0, 0, 3, 0, 0, 0, 0, 83, 49, 84, 83, 49]);
}

#[test]
fn test_epic_as_bytes() {
    let mut epic = Epic::new(129, "E129".to_string(), "TE129".to_string(), Status::Open, String::new(), HashMap::new());

    let encoding = epic.encode();
    println!("{:?}", encoding);

    let bytes = epic.as_bytes();
    println!("{:?}", bytes);

    assert_eq!(bytes, vec![129, 0, 0, 0, 4, 0, 0, 0, 5, 0, 0, 0, 0, 69, 49, 50, 57, 84, 69, 49, 50, 57]);

    let story = Story::new(1, 129, "S1".to_string(), "TS1".to_string(), Status::Open);

    let _ = epic.add_story(story);

    let bytes = epic.as_bytes();

    println!("{:?}", bytes);

    assert_eq!(
        bytes,
        vec![
            129, 0, 0, 0, 4, 0, 0, 0, 5, 0, 0, 0, 0, 69, 49, 50, 57, 84, 69, 49, 50, 57, 1, 0, 0, 0,
            129, 0, 0, 0, 2, 0, 0, 0, 3, 0, 0, 0, 0, 83, 49, 84, 83, 49
        ]
    );
}

#[test]
fn test_async_db_state_as_bytes() {
    let epic = Epic::new(129, "E129".to_string(), "TE129".to_string(), Status::Open, String::new(), HashMap::new());

    let epic_bytes = epic.as_bytes();
    let db_state = DbState::from_entries("".to_string(), "".to_string(), "".to_string(), vec![(129, epic)], 129);

    let bytes = db_state.as_bytes();

    println!("{:?}", bytes);

    assert_eq!(bytes, vec![129, 0, 0, 0, 4, 0, 0, 0, 5, 0, 0, 0, 0, 69, 49, 50, 57, 84, 69, 49, 50, 57]);
    println!("{}", bytes.starts_with(epic_bytes.as_slice()));

    let epic = Epic::new(129, "E129".to_string(), "TE129".to_string(), Status::Open, String::new(), HashMap::new());
    let new_epic = Epic::new(130, "E130".to_string(), "TE130".to_string(), Status::Open, String::new(), HashMap::new());

    let new_epic_bytes = new_epic.as_bytes();
    let db_state = DbState::from_entries("".to_string(), "".to_string(), "".to_string(), vec![(129, epic), (130, new_epic)], 130);

    let bytes = db_state.as_bytes();

    println!("{:?}", bytes);

    assert!(bytes.starts_with(epic_bytes.as_slice()) || bytes.ends_with(epic_bytes.as_slice()));
    assert!(bytes.starts_with(new_epic_bytes.as_slice()) || bytes.ends_with(new_epic_bytes.as_slice()));
}

#[test]
fn test_async_db_state_read_and_write() {
    let mut db_state = DbState::new(DB_DIR.to_string(), "test_async_db1.txt".to_string(), "async_test_epics1".to_string());

    assert_eq!(db_state.add_epic("Test Epic".to_string(), "A simple test Epic".to_string()), 1);
    assert_eq!(db_state.add_epic("Test Epic".to_string(), "A simple test Epic".to_string()), 2);
    assert_eq!(db_state.add_epic("Test Epic".to_string(), "A simple test Epic".to_string()), 3);

    println!("{:?}", db_state);

    let written = write_db(&db_state);

    let db_state_loaded_res = load_db(DB_DIR, "test_async_db1.txt", "async_test_epics1", &written);

    assert!(db_state_loaded_res.is_ok());

    assert_eq!(db_state, db_state_loaded_res.unwrap());
}

#[test]
fn test_async_db_state_read_write_delete_epic() {
    let mut db_state = DbState::new(DB_DIR.to_string(), "test_async_db2.txt".to_string(), "async_test_epics2".to_string());

    assert_eq!(db_state.add_epic("Test Epic".to_string(), "A simple test Epic".to_string()), 1);
    assert_eq!(db_state.add_epic("Test Epic".to_string(), "A simple test Epic".to_string()), 2);
    assert_eq!(db_state.add_epic("Test Epic".to_string(), "A simple test Epic".to_string()), 3);
    assert_eq!(db_state.add_epic("Test Epic".to_string(), "A simple test Epic".to_string()), 4);

    println!("{:?}", db_state);

    let written = write_db(&db_state);

    let db_state_loaded_res = load_db(DB_DIR, "test_async_db2.txt", "async_test_epics2", &written);

    assert!(db_state_loaded_res.is_ok());

    assert_eq!(db_state, db_state_loaded_res.unwrap());

    assert!(db_state.contains_epic(4));

    assert!(db_state.delete_epic(4).is_ok());

    assert!(!db_state.contains_epic(4));

    println!("{:?}", db_state);

    let written = write_db(&db_state);

    let db_state_loaded_res = load_db(DB_DIR, "test_async_db2.txt", "async_test_epics2", &written);

    assert!(db_state_loaded_res.is_ok());

    let db_state_loaded = db_state_loaded_res.unwrap();

    assert!(!db_state_loaded.contains_epic(4));
}

#[test]
fn test_async_db_read_write_add_story() {
    let mut db_state = DbState::new(DB_DIR.to_string(), "test_async_db3.txt".to_string(), "async_test_epics3".to_string());

    assert_eq!(db_state.add_epic("Test Epic".to_string(), "A simple test Epic".to_string()), 1);
    assert_eq!(db_state.add_epic("Test Epic".to_string(), "A simple test Epic".to_string()), 2);
    assert_eq!(db_state.add_epic("Test Epic".to_string(), "A simple test Epic".to_string()), 3);
    assert_eq!(db_state.add_epic("Test Epic".to_string(), "A simple test Epic".to_string()), 4);

    println!("{:?}", db_state);

    assert!(db_state.contains_epic(4));

    let handle = db_state.add_story(4, "A simple test story".to_string(), "A simple test story decsription".to_string());

    println!("{:?}", handle);

    assert!(handle.is_ok());

    println!("{:?}", db_state);

    let written = write_db(&db_state);

    let db_state_loaded_res = load_db(DB_DIR, "test_async_db3.txt", "async_test_epics3", &written);

    assert!(db_state_loaded_res.is_ok());

    let db_state_loaded = db_state_loaded_res.unwrap();

    assert!(db_state_loaded.contains_epic(4));

    let epic = db_state_loaded.get_epic(4).unwrap();

    assert!(epic.get_story(5).is_some());

    let epic = db_state.get_epic_mut(4).unwrap();

    assert!(epic.delete_story(5).is_ok());

    let written = write_db(&db_state);

    let db_state_loaded_res = load_db(DB_DIR, "test_async_db3.txt", "async_test_epics3", &written);

    assert!(db_state_loaded_res.is_ok());

    let db_state_loaded = db_state_loaded_res.unwrap();

    assert!(db_state_loaded.contains_epic(4));

    let epic = db_state_loaded.get_epic(4).unwrap();

    assert!(epic.get_story(5).is_none());
}

#[test]
fn test_epic_file_paths_of_added_epics() {
    let mut db_state = DbState::new("/db".to_string(), "db.txt".to_string(), "epics".to_string());
    let id = db_state.add_epic("E".to_string(), "D".to_string());
    assert_eq!(db_state.get_epic(id).unwrap().file_path(), "/db/epics/epic1.txt");
    assert_eq!(db_state.db_file_contents(), "1,/db/epics/epic1.txt\n");
}

#[test]
fn test_parse_db_line_errors() {
    assert!(matches!(DbState::parse_db_line("no comma here".to_string()), Err(DbError::FileReadError(_))));
    assert!(matches!(DbState::parse_db_line("x1,path".to_string()), Err(DbError::FileReadError(_))));
    assert!(matches!(DbState::parse_db_line("4294967296,path".to_string()), Err(DbError::FileReadError(_))));
    let (id, path) = DbState::parse_db_line("+17,a,b".to_string()).unwrap();
    assert_eq!((id, path.as_str()), (17, "a,b"));
}

#[test]
fn test_epic_load_errors() {
    let mut max_id = 0;
    // Too short for a tag.
    assert!(matches!(Epic::load("p".to_string(), &[1, 2, 3], &mut max_id), Err(DbError::FileReadError(_))));
    // A tag whose name runs past the end.
    let bytes = [1, 0, 0, 0, 9, 0, 0, 0, 0, 0, 0, 0, 0, b'a'];
    assert!(matches!(Epic::load("p".to_string(), &bytes, &mut max_id), Err(DbError::FileReadError(_))));
    // A status byte that names no status.
    let bytes = [1, 0, 0, 0, 1, 0, 0, 0, 0, 0, 0, 0, 7, b'a'];
    assert!(matches!(Epic::load("p".to_string(), &bytes, &mut max_id), Err(DbError::ParseError(_))));
    // Text that is not UTF-8.
    let bytes = [1, 0, 0, 0, 1, 0, 0, 0, 0, 0, 0, 0, 0, 0xff];
    assert!(matches!(Epic::load("p".to_string(), &bytes, &mut max_id), Err(DbError::ParseError(_))));
    assert_eq!(max_id, 0);
}

#[test]
fn test_status_bytes_and_names() {
    for (byte, status, name) in [(0u8, Status::Open, "OPEN"), (1, Status::InProgress, "IN PROGRESS"), (2, Status::Resolved, "RESOLVED"), (3, Status::Closed, "CLOSED")] {
        assert_eq!(status.as_byte(), byte);
        assert_eq!(Status::try_from_byte(byte).unwrap(), status);
        assert_eq!(status.display_name(), name);
    }
    assert!(matches!(Status::try_from_byte(4), Err(DbError::ParseError(_))));
}

#[test]
fn test_error_messages() {
    assert_eq!(Status::try_from_byte(9).unwrap_err().message(), "unable to parse `Status` from byte 9");
    assert_eq!(DbState::parse_db_line("no comma".to_string()).unwrap_err().message(), "unable to parse data base line: no comma");
    assert_eq!(DbState::parse_db_line("x1,path".to_string()).unwrap_err().message(), "unable to parse epic id: x1");

    let mut epic = Epic::new(4, "E".to_string(), "D".to_string(), Status::Open, "p".to_string(), HashMap::new());
    assert!(epic.add_story(Story::new(5, 4, "S".to_string(), "T".to_string(), Status::Open)).is_ok());
    let conflict = epic.add_story(Story::new(5, 4, "S".to_string(), "T".to_string(), Status::Open));
    assert_eq!(conflict.unwrap_err().message(), "a story with id: 5 already exists for this epic");
    assert_eq!(epic.delete_story(6).unwrap_err().message(), "no story with id: 6 present");
    assert_eq!(epic.update_story_status(6, Status::Closed).unwrap_err().message(), "unable to update story status for id: 6");

    let mut db_state = DbState::new("d".to_string(), "db.txt".to_string(), "e".to_string());
    assert_eq!(db_state.delete_epic(3).unwrap_err().message(), "no epic with id: 3");
    assert_eq!(db_state.add_story(3, "S".to_string(), "T".to_string()).unwrap_err().message(), "no epic with id: {epic_id}");
    assert_eq!(db_state.delete_story(3, 1).unwrap_err().message(), "unable to delete story, no epic with id: 3");
    let id = db_state.add_epic("E".to_string(), "D".to_string());
    assert_eq!(db_state.delete_story(id, 9).unwrap_err().message(), "no story with id: 9 present");
}

#[test]
fn test_database_round_trip_keeps_everything() {
    let mut db = DbState::new(DB_DIR.to_string(), "round.txt".to_string(), "round_epics".to_string());
    let first = db.add_epic("First".to_string(), "One".to_string());
    let second = db.add_epic("Second".to_string(), "Two".to_string());
    assert!(db.add_story(first, "S1".to_string(), "D1".to_string()).is_ok());
    assert!(db.add_story(second, "S2".to_string(), "D2".to_string()).is_ok());
    assert!(db.add_story(first, "S3".to_string(), "D3".to_string()).is_ok());
    let written = write_db(&db);
    let loaded = load_db(DB_DIR, "round.txt", "round_epics", &written).expect("database loads");
    assert_eq!(loaded.last_unique_id(), 5);
    assert_eq!(loaded, db);
}

#[test]
fn test_db_lines_name_each_epic_once() {
    let mut db = DbState::new("/db".to_string(), "db.txt".to_string(), "epics".to_string());
    let first = db.add_epic("E1".to_string(), "D1".to_string());
    let second = db.add_epic("E2".to_string(), "D2".to_string());
    let lines = db.db_lines();
    assert_eq!(lines.len(), 2);
    let mut ids: Vec<u32> = lines.iter().map(|(id, _)| *id).collect();
    ids.sort();
    assert_eq!(ids, vec![first, second]);
    for (id, line) in &lines {
        assert_eq!(*line, format!("{},/db/epics/epic{}.txt\n", id, id));
    }
}

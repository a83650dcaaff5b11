use citadel::session::session_file_path;
use citadel::session::session_id_from_file_name;
use citadel::session::Message;
use citadel::session::Role;
use citadel::session::Session;

#[test]
fn new_session_is_empty() {
    let s = Session::new("alpha".to_string());
    assert_eq!(s.id, "alpha");
    assert!(s.history.is_empty());
    let m = Message::new(Role::User, "hi".to_string());
    assert_eq!(m.role, Role::User);
    assert!(m.tool_calls.is_empty());
}

#[test]
fn file_path_of_session() {
    assert_eq!(session_file_path("default"), "sessions/default.json");
    assert_eq!(session_file_path(""), "sessions/.json");
}

#[test]
fn ids_from_file_names() {
    assert_eq!(session_id_from_file_name("default.json"), Some("default".to_string()));
    assert_eq!(session_id_from_file_name("a.b.json"), Some("a.b".to_string()));
    assert_eq!(session_id_from_file_name("..json"), Some(".".to_string()));
    assert_eq!(session_id_from_file_name(".json"), None);
    assert_eq!(session_id_from_file_name("json"), None);
    assert_eq!(session_id_from_file_name("notes.txt"), None);
    assert_eq!(session_id_from_file_name("x.json.bak"), None);
    assert_eq!(session_id_from_file_name("x.JSON"), None);
    assert_eq!(session_id_from_file_name("é.json"), Some("é".to_string()));
}

#[test]
fn saved_session_is_listed_under_its_id() {
    for id in ["default", "a.b", "work-1", "ü"] {
        let path = session_file_path(id);
        let name = path.strip_prefix("sessions/").unwrap();
        assert_eq!(session_id_from_file_name(name), Some(id.to_string()));
    }
}

use niku::backend::{ErrorResponse, ObjectKeepAliveRequest, RegisteredObjectData};
use niku::object::{ObjectEntry, ObjectKind};
use niku::{
    download_confirmed, get_backend_address_from_prefix, get_recommended_backend_address,
    id_with_spaces, normalize_id,
};

#[test]
fn test_backend_address_from_prefix() {
    assert_eq!(
        get_backend_address_from_prefix(&String::from("test")),
        Some(String::from("http://localhost:8080"))
    );
    assert_eq!(
        get_backend_address_from_prefix(&String::from("the")),
        Some(String::from("https://eu1.backend.niku.app"))
    );
    assert_eq!(get_backend_address_from_prefix(&String::from("nope")), None);
    assert_eq!(get_backend_address_from_prefix(&String::from("")), None);
}

#[test]
fn test_recommended_backend_address() {
    assert_eq!(
        get_recommended_backend_address(),
        "https://eu1.backend.niku.app"
    );
}

#[test]
fn test_normalize_id_accepts_underscores() {
    assert_eq!(
        normalize_id(&String::from("test_quick_fox_runs")),
        "test-quick-fox-runs"
    );
    assert_eq!(
        normalize_id(&String::from("test-quick-fox-runs")),
        "test-quick-fox-runs"
    );
}

#[test]
fn test_id_with_spaces() {
    assert_eq!(
        id_with_spaces(&String::from("test-quick-fox-runs")),
        "test quick fox runs"
    );
    assert_eq!(id_with_spaces(&String::from("plain")), "plain");
}

#[test]
fn test_download_confirmed() {
    assert!(download_confirmed(&String::from("")));
    assert!(download_confirmed(&String::from("y")));
    assert!(download_confirmed(&String::from("yes")));
    assert!(!download_confirmed(&String::from("n")));
    assert!(!download_confirmed(&String::from("no")));
    assert!(!download_confirmed(&String::from("yess")));
}

#[test]
fn test_object_kind_accessors() {
    let file = ObjectKind::File { name: String::from("a.txt") };
    let folder = ObjectKind::Folder { name: String::from("photos") };
    assert_eq!(file.label(), "file");
    assert_eq!(folder.label(), "folder");
    assert_eq!(file.name().as_str(), "a.txt");
    assert_eq!(folder.name().as_str(), "photos");
}

#[test]
fn test_wire_types_clone() {
    let entry = ObjectEntry {
        node_address: String::from("addr"),
        file_hash: String::from("hash"),
        kind: ObjectKind::Folder { name: String::from("photos") },
        size: 7,
    };
    let copy = entry.clone();
    assert_eq!(copy.node_address, entry.node_address);
    assert_eq!(copy.file_hash, entry.file_hash);
    assert_eq!(copy.size, entry.size);
    assert_eq!(copy.kind.name(), entry.kind.name());

    let registration = RegisteredObjectData {
        id: String::from("test-quick-fox-runs"),
        keep_alive_key: String::from("0f3b28de-9c41-4b7e-8d55-1a2b3c4d5e6f"),
    };
    let copy = registration.clone();
    assert_eq!(copy.id, registration.id);
    assert_eq!(copy.keep_alive_key, registration.keep_alive_key);

    let request = ObjectKeepAliveRequest { keep_alive_key: registration.keep_alive_key.clone() };
    assert_eq!(request.clone().keep_alive_key, request.keep_alive_key);
}

#[test]
fn test_error_response_new() {
    let response = ErrorResponse::new(String::from("0001@NKBE"), String::from("gone"));
    assert_eq!(response.code, "0001@NKBE");
    assert_eq!(response.message, "gone");
    assert_eq!(response.display_string(), "0001@NKBE: gone");
}

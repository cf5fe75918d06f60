use cesm::config::ServerId;
use cesm::placeholder::RconError;

#[test]
fn server_id_displays_as_uuid() {
    let id = ServerId::new();
    let s = id.to_string();
    assert_eq!(s.len(), 36);
    assert_eq!(s.matches('-').count(), 4);
}

#[test]
fn server_ids_are_unique() {
    let a = ServerId::new();
    let b = ServerId::new();
    assert_ne!(a, b);
}

#[test]
fn stub_error_renders() {
    assert_eq!(RconError::NotImplemented.to_string(), "not yet implemented");
}

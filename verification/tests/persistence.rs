use resk::client::{
    backend_address, build_request, get_port, parse_peers, peer_added, ClientError,
};
use resk::clipboard::{should_publish, ClipboardWatch};
use resk::control::render_peers;
use resk::document::{
    load_data_map, load_known_peers, save_peer, save_port, DataMap, DocumentError,
};
use resk::identity::{adopt_identity, get_keys, restore_identity, IdentityError};
use resk::registry::PeerRecord;

fn peer_id() -> String {
    get_keys(None, None).unwrap().identity.peer_id
}

fn record(id: &str, address: &str) -> PeerRecord {
    PeerRecord { peer_id: id.to_string(), address: address.to_string() }
}

#[test]
fn missing_document_has_no_members() {
    let map = load_data_map(None).unwrap();
    assert_eq!(map.text("port"), None);
    assert_eq!(map.known_peers(), Ok(Vec::new()));
    assert_eq!(map.render(), Ok("{}".to_string()));
    assert_eq!(DataMap::new().render(), Ok("{}".to_string()));
}

#[test]
fn document_that_is_no_object_is_rejected() {
    assert_eq!(load_data_map(Some("")).err(), Some(DocumentError::Decode));
    assert_eq!(load_data_map(Some("[1, 2]")).err(), Some(DocumentError::Decode));
    assert_eq!(load_data_map(Some("{\"port\": ")).err(), Some(DocumentError::Decode));
    assert_eq!(save_port(Some("not json"), 1), Err(DocumentError::Decode));
    assert_eq!(save_peer(Some("not json"), &peer_id()), Err(DocumentError::Decode));
    assert_eq!(load_known_peers(Some("not json")), Err(DocumentError::Decode));
}

#[test]
fn text_member_is_read_only_from_strings() {
    let map = load_data_map(Some("{\"port\": \"4000\", \"n\": 4000, \"l\": [\"x\"]}")).unwrap();
    assert_eq!(map.text("port"), Some("4000".to_string()));
    assert_eq!(map.text("n"), None);
    assert_eq!(map.text("l"), None);
    assert_eq!(map.text("absent"), None);
}

#[test]
fn set_text_replaces_one_member() {
    let mut map = load_data_map(Some("{\"a\": 1, \"port\": \"1\"}")).unwrap();
    map.set_text("port", "2".to_string());
    map.set_text("local_peer_id", "X".to_string());
    assert_eq!(map.text("port"), Some("2".to_string()));
    assert_eq!(map.text("local_peer_id"), Some("X".to_string()));
    assert_eq!(
        map.render(),
        Ok("{\n  \"a\": 1,\n  \"local_peer_id\": \"X\",\n  \"port\": \"2\"\n}".to_string())
    );
}

#[test]
fn save_port_writes_decimal_port() {
    assert_eq!(save_port(None, 8080), Ok("{\n  \"port\": \"8080\"\n}".to_string()));
    assert_eq!(
        save_port(Some("{\"port\": \"1\", \"local_peer_id\": \"X\"}"), 65535),
        Ok("{\n  \"local_peer_id\": \"X\",\n  \"port\": \"65535\"\n}".to_string())
    );
    assert_eq!(save_port(Some("{}"), 0), Ok("{\n  \"port\": \"0\"\n}".to_string()));
}

#[test]
fn get_port_reads_what_save_port_wrote() {
    let written = save_port(None, 40123).unwrap();
    assert_eq!(get_port(Some(&written)), Ok("40123".to_string()));
}

#[test]
fn get_port_fails_when_node_is_not_running() {
    assert_eq!(get_port(None), Err(ClientError::NodeNotRunning));
    assert_eq!(get_port(Some("{}")), Err(ClientError::NodeNotRunning));
    assert_eq!(get_port(Some("garbage")), Err(ClientError::NodeNotRunning));
    assert_eq!(get_port(Some("{\"port\": 4000}")), Err(ClientError::NodeNotRunning));
    assert_eq!(
        ClientError::NodeNotRunning.describe(),
        "Check if resk_node is running"
    );
    assert_eq!(ClientError::IncorrectResponse.describe(), "Incorrect response");
}

#[test]
fn save_peer_creates_and_extends_the_list() {
    let a = peer_id();
    let b = peer_id();
    let first = save_peer(None, &a).unwrap();
    assert_eq!(first, format!("{{\n  \"peers\": [\n    \"{}\"\n  ]\n}}", a));
    assert_eq!(load_known_peers(Some(&first)), Ok(vec![a.clone()]));
    let second = save_peer(Some(&first), &b).unwrap();
    assert_eq!(load_known_peers(Some(&second)), Ok(vec![a.clone(), b.clone()]));
    let third = save_peer(Some(&second), &a).unwrap();
    assert_eq!(third, second);
    assert_eq!(load_known_peers(Some(&third)), Ok(vec![a, b]));
}

#[test]
fn save_peer_keeps_other_members() {
    let a = peer_id();
    let written = save_peer(Some("{\"port\": \"7\", \"extra\": {\"k\": [1, null]}}"), &a).unwrap();
    let map = load_data_map(Some(&written)).unwrap();
    assert_eq!(map.text("port"), Some("7".to_string()));
    assert_eq!(map.known_peers(), Ok(vec![a.clone()]));
    assert_eq!(
        written,
        format!(
            "{{\n  \"extra\": {{\n    \"k\": [\n      1,\n      null\n    ]\n  }},\n  \"peers\": [\n    \"{}\"\n  ],\n  \"port\": \"7\"\n}}",
            a
        )
    );
}

#[test]
fn save_peer_rejects_text_that_is_no_peer_identifier() {
    assert_eq!(save_peer(None, "alice"), Err(DocumentError::InvalidPeerId));
    assert_eq!(save_peer(None, ""), Err(DocumentError::InvalidPeerId));
    let mut map = DataMap::new();
    assert_eq!(map.add_peer("not a peer"), Err(DocumentError::InvalidPeerId));
    assert_eq!(map.render(), Ok("{}".to_string()));
}

#[test]
fn peers_member_of_wrong_shape_is_malformed() {
    let a = peer_id();
    assert_eq!(save_peer(Some("{\"peers\": \"x\"}"), &a), Err(DocumentError::Malformed));
    assert_eq!(load_known_peers(Some("{\"peers\": 3}")), Err(DocumentError::Malformed));
    assert_eq!(
        load_known_peers(Some(&format!("{{\"peers\": [\"{}\", 5]}}", a))),
        Err(DocumentError::Malformed)
    );
    assert_eq!(
        load_known_peers(Some("{\"peers\": [\"bogus\", 5]}")),
        Err(DocumentError::Malformed)
    );
}

#[test]
fn listed_text_that_is_no_peer_identifier_is_rejected() {
    let a = peer_id();
    assert_eq!(
        load_known_peers(Some(&format!("{{\"peers\": [\"{}\", \"bogus\"]}}", a))),
        Err(DocumentError::InvalidPeerId)
    );
    assert_eq!(load_known_peers(Some("{\"peers\": []}")), Ok(Vec::new()));
    assert_eq!(load_known_peers(None), Ok(Vec::new()));
}

#[test]
fn add_peer_keeps_elements_that_are_no_texts() {
    let a = peer_id();
    let mut map = load_data_map(Some("{\"peers\": [1, \"x\"]}")).unwrap();
    assert_eq!(map.add_peer(&a), Ok(()));
    assert_eq!(
        map.render(),
        Ok(format!("{{\n  \"peers\": [\n    1,\n    \"x\",\n    \"{}\"\n  ]\n}}", a))
    );
}

#[test]
fn first_run_generates_identity_and_document() {
    let outcome = get_keys(None, Some("{\"port\": \"9\"}")).unwrap();
    assert!(outcome.created);
    assert!(!outcome.identity.key_encoding.is_empty());
    assert!(!outcome.identity.peer_id.is_empty());
    let document = outcome.document.unwrap();
    let map = load_data_map(Some(&document)).unwrap();
    assert_eq!(map.text("local_peer_id"), Some(outcome.identity.peer_id.clone()));
    assert_eq!(map.text("port"), Some("9".to_string()));
    assert_eq!(
        document,
        format!(
            "{{\n  \"local_peer_id\": \"{}\",\n  \"port\": \"9\"\n}}",
            outcome.identity.peer_id
        )
    );
}

#[test]
fn first_run_with_unreadable_document_still_gives_identity() {
    let outcome = get_keys(None, Some("garbage")).unwrap();
    assert!(outcome.created);
    assert_eq!(outcome.document, None);
}

#[test]
fn second_run_restores_the_same_identity() {
    let first = get_keys(None, None).unwrap();
    let stored = first.identity.key_encoding.clone();
    let second = get_keys(Some(stored.clone()), None).unwrap();
    assert!(!second.created);
    assert_eq!(second.document, None);
    assert_eq!(second.identity.peer_id, first.identity.peer_id);
    assert_eq!(second.identity.key_encoding, stored);
    let third = restore_identity(stored).unwrap();
    assert_eq!(third.identity.peer_id, first.identity.peer_id);
}

#[test]
fn two_generated_identities_differ() {
    let a = get_keys(None, None).unwrap();
    let b = get_keys(None, None).unwrap();
    assert_ne!(a.identity.peer_id, b.identity.peer_id);
    assert_ne!(a.identity.key_encoding, b.identity.key_encoding);
}

#[test]
fn corrupt_key_file_is_a_decode_error() {
    let first = get_keys(None, None).unwrap();
    let mut corrupt = first.identity.key_encoding.clone();
    corrupt.truncate(corrupt.len() / 2);
    assert_eq!(get_keys(Some(corrupt), None).err(), Some(IdentityError::Decode));
    assert_eq!(get_keys(Some(Vec::new()), None).err(), Some(IdentityError::Decode));
    assert_eq!(
        get_keys(Some(vec![0xff, 0x00, 0x13, 0x37]), Some("{}")).err(),
        Some(IdentityError::Decode)
    );
}

#[test]
fn unusable_generated_key_is_a_generate_error() {
    assert_eq!(adopt_identity(None, None).err(), Some(IdentityError::Generate));
    assert_eq!(
        adopt_identity(Some(vec![1, 2, 3]), None).err(),
        Some(IdentityError::Generate)
    );
    let good = get_keys(None, None).unwrap().identity;
    let adopted = adopt_identity(Some(good.key_encoding.clone()), None).unwrap();
    assert!(adopted.created);
    assert_eq!(adopted.identity, good);
    assert_eq!(
        adopted.document,
        Some(format!("{{\n  \"local_peer_id\": \"{}\"\n}}", good.peer_id))
    );
}

#[test]
fn client_builds_requests_and_addresses() {
    assert_eq!(backend_address("4000"), "127.0.0.1:4000");
    assert_eq!(build_request("is_alive", ""), "is_alive:");
    assert_eq!(build_request("add_peer", "12D3KooW"), "add_peer:12D3KooW");
    assert!(peer_added("OK"));
    assert!(!peer_added("Unknown peer"));
    assert!(!peer_added("OK "));
    assert!(!peer_added(""));
}

#[test]
fn client_reads_peer_list() {
    assert_eq!(parse_peers(""), Ok(Vec::new()));
    assert_eq!(parse_peers(","), Ok(Vec::new()));
    assert_eq!(parse_peers("alice:10.0.0.5"), Ok(vec![record("alice", "10.0.0.5")]));
    assert_eq!(
        parse_peers("alice:10.0.0.5,,bob:10.0.0.6"),
        Ok(vec![record("alice", "10.0.0.5"), record("bob", "10.0.0.6")])
    );
    assert_eq!(parse_peers("alice:a:b,"), Ok(vec![record("alice", "a")]));
    assert_eq!(parse_peers(":x,"), Ok(vec![record("", "x")]));
}

#[test]
fn client_rejects_record_without_colon() {
    assert_eq!(parse_peers("alice"), Err(ClientError::IncorrectResponse));
    assert_eq!(parse_peers("alice:10.0.0.5,bob"), Err(ClientError::IncorrectResponse));
    assert_eq!(parse_peers("bob,alice:10.0.0.5,"), Err(ClientError::IncorrectResponse));
}

#[test]
fn client_reads_back_what_node_lists() {
    let online = vec![record("alice", "10.0.0.5"), record("bob", "10.0.0.6"), record("carol", "")];
    assert_eq!(parse_peers(&render_peers(&online)), Ok(online));
}

#[test]
fn clipboard_watch_reports_changes_only() {
    let mut watch = ClipboardWatch::new("a".to_string());
    assert_eq!(watch.observe("a".to_string()), None);
    assert_eq!(watch.observe("b".to_string()), Some("b".to_string()));
    assert_eq!(watch.observe("b".to_string()), None);
    assert_eq!(watch.observe(String::new()), Some(String::new()));
    assert_eq!(watch.observe("a".to_string()), Some("a".to_string()));
    assert!(should_publish(1));
    assert!(should_publish(25));
    assert!(!should_publish(0));
}

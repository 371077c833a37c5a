use resk::control::{
    os_record_key, parse_request, render_peers, update_topic_name, Command, ControlRequest,
    DISCOVERY_TTL_SECS, HANDSHAKE_TIMEOUT_SECS, HEARTBEAT_SECS,
};
use resk::coordinator::{Coordinator, Effect, Reaction};
use resk::registry::{PeerRecord, PeerRegistry};

fn record(id: &str, address: &str) -> PeerRecord {
    PeerRecord { peer_id: id.to_string(), address: address.to_string() }
}

fn pair(id: &str, address: &str) -> (String, String) {
    (id.to_string(), address.to_string())
}

fn reply(response: &str) -> Reaction {
    Reaction::Reply { response: response.to_string(), effects: Vec::new() }
}

fn node() -> Coordinator {
    Coordinator::new("LOCAL".to_string(), Vec::new())
}

#[test]
fn parse_request_reads_name_and_argument() {
    assert_eq!(
        parse_request("add_peer:12D3KooW"),
        ControlRequest { command: Command::AddPeer, argument: Some("12D3KooW".to_string()) }
    );
    assert_eq!(
        parse_request("is_alive:"),
        ControlRequest { command: Command::IsAlive, argument: Some(String::new()) }
    );
    assert_eq!(
        parse_request("get_peers"),
        ControlRequest { command: Command::GetPeers, argument: None }
    );
    assert_eq!(
        parse_request("local_peer_id:"),
        ControlRequest { command: Command::LocalPeerId, argument: Some(String::new()) }
    );
    assert_eq!(
        parse_request("get_peer_os:alice:extra"),
        ControlRequest { command: Command::GetPeerOs, argument: Some("alice".to_string()) }
    );
}

#[test]
fn parse_request_marks_other_names_unrecognized() {
    assert_eq!(parse_request("").command, Command::Unrecognized);
    assert_eq!(parse_request("IS_ALIVE").command, Command::Unrecognized);
    assert_eq!(parse_request("is_alive ").command, Command::Unrecognized);
    assert_eq!(parse_request(":is_alive").command, Command::Unrecognized);
    assert_eq!(parse_request("shutdown:now").command, Command::Unrecognized);
}

#[test]
fn render_peers_lists_identifier_and_address() {
    assert_eq!(render_peers(&Vec::new()), "");
    assert_eq!(render_peers(&vec![record("alice", "10.0.0.5")]), "alice:10.0.0.5");
    assert_eq!(
        render_peers(&vec![record("alice", "10.0.0.5"), record("bob", "10.0.0.6")]),
        "alice:10.0.0.5,bob:10.0.0.6"
    );
}

#[test]
fn protocol_constants_have_their_values() {
    assert_eq!(os_record_key("12D3KooW"), "12D3KooW_OS");
    assert_eq!(update_topic_name(), "resk-update");
    assert_eq!(DISCOVERY_TTL_SECS, 60);
    assert_eq!(HANDSHAKE_TIMEOUT_SECS, 20);
    assert_eq!(HEARTBEAT_SECS, 10);
}

#[test]
fn is_alive_answers_one_whatever_the_state() {
    let mut c = node();
    assert_eq!(c.handle_request("is_alive"), reply("1"));
    assert_eq!(c.handle_request("is_alive:"), reply("1"));
    assert_eq!(c.handle_request("is_alive:anything"), reply("1"));
    c.handle_discovered(&vec![pair("alice", "/ip4/10.0.0.5/tcp/1")]);
    assert_eq!(c.complete_promotion("alice", true), Reaction::Reply {
        response: "OK".to_string(),
        effects: vec![Effect::AddExplicitPeer("alice".to_string())],
    });
    assert_eq!(c.handle_request("is_alive:"), reply("1"));
    c.handle_expired(&vec![pair("alice", "/ip4/10.0.0.5/tcp/1")]);
    assert_eq!(c.handle_request("is_alive:"), reply("1"));
}

#[test]
fn get_peers_is_empty_without_peers_and_lists_discovered_peer() {
    let mut registry = PeerRegistry::new(Vec::new());
    let c = Coordinator::from_registry("LOCAL".to_string(), registry);
    assert_eq!(c.handle_request("get_peers"), reply(""));
    assert_eq!(c.handle_request("get_peers:"), reply(""));
    registry = PeerRegistry::new(Vec::new());
    assert!(registry.record_discovered("P1".to_string(), "10.0.0.5".to_string()));
    let c = Coordinator::from_registry("LOCAL".to_string(), registry);
    assert_eq!(c.handle_request("get_peers"), reply("P1:10.0.0.5"));
    assert_eq!(c.handle_request("get_peers:"), reply("P1:10.0.0.5"));
    assert_eq!(c.online_peers(), vec![record("P1", "10.0.0.5")]);
}

#[test]
fn get_peers_lists_peer_discovered_through_multiaddress() {
    let mut c = node();
    c.handle_discovered(&vec![pair("alice", "/ip4/10.0.0.5/tcp/4001")]);
    assert_eq!(c.handle_request("get_peers:"), reply("alice:10.0.0.5"));
    c.handle_discovered(&vec![pair("bob", "/ip4/10.0.0.6/udp/1/quic-v1")]);
    assert_eq!(c.handle_request("get_peers:"), reply("alice:10.0.0.5,bob:10.0.0.6"));
}

#[test]
fn add_peer_for_unknown_identifier_answers_error_text() {
    let mut c = node();
    assert_eq!(c.handle_request("add_peer:UNKNOWN"), reply("Unknown peer"));
    c.handle_discovered(&vec![pair("alice", "/ip4/10.0.0.5/tcp/4001")]);
    assert_eq!(c.handle_request("add_peer:UNKNOWN"), reply("Unknown peer"));
    assert_eq!(c.handle_request("add_peer:"), reply("Unknown peer"));
    assert_eq!(c.handle_request("add_peer"), reply("Incorrect request"));
    assert_eq!(c.trusted_peers(), Vec::<String>::new());
    assert_eq!(c.handle_request("is_alive:"), reply("1"));
}

#[test]
fn add_peer_for_online_identifier_persists_then_answers_ok() {
    let mut c = node();
    c.handle_discovered(&vec![pair("alice", "/ip4/10.0.0.5/tcp/4001")]);
    assert_eq!(
        c.handle_request("add_peer:alice"),
        Reaction::Persist { peer_id: "alice".to_string() }
    );
    assert_eq!(c.trusted_peers(), Vec::<String>::new());
    assert_eq!(
        c.complete_promotion("alice", true),
        Reaction::Reply {
            response: "OK".to_string(),
            effects: vec![Effect::AddExplicitPeer("alice".to_string())],
        }
    );
    assert_eq!(c.trusted_peers(), vec!["alice".to_string()]);
}

#[test]
fn promotion_that_was_not_persisted_changes_nothing() {
    let mut c = node();
    c.handle_discovered(&vec![pair("alice", "/ip4/10.0.0.5/tcp/4001")]);
    assert_eq!(c.complete_promotion("alice", false), reply("Failed to save peer"));
    assert_eq!(c.trusted_peers(), Vec::<String>::new());
    assert_eq!(c.complete_promotion("grace", true), reply("Unknown peer"));
    assert_eq!(c.trusted_peers(), Vec::<String>::new());
}

#[test]
fn local_peer_id_answers_own_identifier() {
    let c = node();
    assert_eq!(c.handle_request("local_peer_id:"), reply("LOCAL"));
    assert_eq!(c.local_peer_id(), "LOCAL");
}

#[test]
fn get_peer_os_asks_directory_and_answers_empty() {
    let c = node();
    assert_eq!(
        c.handle_request("get_peer_os:alice"),
        Reaction::Reply {
            response: String::new(),
            effects: vec![Effect::LookupRecord("alice_OS".to_string())],
        }
    );
    assert_eq!(c.handle_request("get_peer_os"), reply("Incorrect request"));
}

#[test]
fn other_commands_answer_incorrect_request() {
    let c = node();
    assert_eq!(c.handle_request("reboot"), reply("Incorrect request"));
    assert_eq!(c.handle_request(""), reply("Incorrect request"));
    assert_eq!(c.handle_request("\u{0}"), reply("Incorrect request"));
}

#[test]
fn discovery_registers_addresses_and_publishes_os() {
    let mut c = node();
    assert_eq!(c.handle_discovered(&Vec::new()), Vec::<Effect>::new());
    let effects = c.handle_discovered(&vec![
        pair("alice", "/ip4/10.0.0.5/tcp/4001"),
        pair("alice", "/ip4/10.0.0.5/udp/4001/quic-v1"),
        pair("bob", "/quic-v1"),
    ]);
    assert_eq!(
        effects,
        vec![
            Effect::AddAddress("alice".to_string(), "/ip4/10.0.0.5/tcp/4001".to_string()),
            Effect::AddAddress("alice".to_string(), "/ip4/10.0.0.5/udp/4001/quic-v1".to_string()),
            Effect::AddAddress("bob".to_string(), "/quic-v1".to_string()),
            Effect::PublishOs("LOCAL_OS".to_string()),
        ]
    );
    assert_eq!(c.online_peers(), vec![record("alice", "10.0.0.5")]);
}

#[test]
fn trusted_peer_is_promoted_again_after_restart() {
    let mut first = node();
    first.handle_discovered(&vec![pair("alice", "/ip4/10.0.0.5/tcp/4001")]);
    first.complete_promotion("alice", true);
    let persisted = first.trusted_peers();

    let mut second = Coordinator::new("LOCAL".to_string(), persisted);
    assert_eq!(second.online_peers(), Vec::<PeerRecord>::new());
    let effects = second.handle_discovered(&vec![
        pair("bob", "/ip4/10.0.0.6/tcp/4001"),
        pair("alice", "/ip4/10.0.0.5/tcp/4001"),
    ]);
    assert_eq!(
        effects,
        vec![
            Effect::AddAddress("bob".to_string(), "/ip4/10.0.0.6/tcp/4001".to_string()),
            Effect::AddAddress("alice".to_string(), "/ip4/10.0.0.5/tcp/4001".to_string()),
            Effect::PublishOs("LOCAL_OS".to_string()),
            Effect::AddExplicitPeer("alice".to_string()),
        ]
    );
    let again = second.handle_discovered(&vec![pair("alice", "/ip4/10.0.0.5/tcp/4001")]);
    assert_eq!(
        again,
        vec![
            Effect::AddAddress("alice".to_string(), "/ip4/10.0.0.5/tcp/4001".to_string()),
            Effect::PublishOs("LOCAL_OS".to_string()),
        ]
    );
}

#[test]
fn expiry_takes_matching_peers_offline() {
    let mut c = node();
    c.handle_discovered(&vec![
        pair("alice", "/ip4/10.0.0.5/tcp/4001"),
        pair("bob", "/ip4/10.0.0.6/tcp/4001"),
    ]);
    c.handle_expired(&vec![
        pair("alice", "/ip4/10.0.0.5/udp/9/quic-v1"),
        pair("bob", "/ip4/10.0.0.7/tcp/4001"),
        pair("carol", "/quic-v1"),
    ]);
    assert_eq!(c.handle_request("get_peers:"), reply("bob:10.0.0.6"));
    assert_eq!(c.handle_request("add_peer:alice"), reply("Unknown peer"));
}

#[test]
fn message_on_update_topic_goes_to_clipboard() {
    let c = node();
    assert_eq!(
        c.handle_message("resk-update", "copied text".to_string()),
        Some(Effect::SetClipboard("copied text".to_string()))
    );
    assert_eq!(c.handle_message("other-topic", "copied text".to_string()), None);
    assert_eq!(c.handle_message("", String::new()), None);
}

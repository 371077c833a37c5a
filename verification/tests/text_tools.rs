use resk::registry::address_host;
use resk::text::{chars_of, decimal_string, find_from, joined, segment, text_eq};

#[test]
fn segment_cuts_like_split() {
    assert_eq!(segment("add_peer:abc", ':', 0), Some("add_peer".to_string()));
    assert_eq!(segment("add_peer:abc", ':', 1), Some("abc".to_string()));
    assert_eq!(segment("add_peer:abc", ':', 2), None);
    assert_eq!(segment("a:b:c", ':', 1), Some("b".to_string()));
    assert_eq!(segment("a:b:c", ':', 2), Some("c".to_string()));
}

#[test]
fn segment_of_text_without_separator_is_the_text() {
    assert_eq!(segment("is_alive", ':', 0), Some("is_alive".to_string()));
    assert_eq!(segment("is_alive", ':', 1), None);
    assert_eq!(segment("", ':', 0), Some(String::new()));
    assert_eq!(segment("", ':', 1), None);
}

#[test]
fn segment_keeps_empty_pieces() {
    assert_eq!(segment("is_alive:", ':', 1), Some(String::new()));
    assert_eq!(segment("::x", ':', 0), Some(String::new()));
    assert_eq!(segment("::x", ':', 1), Some(String::new()));
    assert_eq!(segment("::x", ':', 2), Some("x".to_string()));
}

#[test]
fn segment_counts_characters_not_bytes() {
    assert_eq!(segment("héllo:wörld:ß", ':', 1), Some("wörld".to_string()));
    assert_eq!(segment("héllo:wörld:ß", ':', 2), Some("ß".to_string()));
}

#[test]
fn find_from_gives_first_position_or_length() {
    let chars = chars_of("a,b,c");
    assert_eq!(find_from(&chars, 0, ','), 1);
    assert_eq!(find_from(&chars, 1, ','), 1);
    assert_eq!(find_from(&chars, 2, ','), 3);
    assert_eq!(find_from(&chars, 4, ','), 5);
    assert_eq!(find_from(&chars, 5, ','), 5);
    assert_eq!(find_from(&chars, 9, ','), 9);
}

#[test]
fn chars_of_lists_every_character() {
    assert_eq!(chars_of("aé/"), vec!['a', 'é', '/']);
    assert_eq!(chars_of(""), Vec::<char>::new());
}

#[test]
fn text_eq_compares_content() {
    assert!(text_eq("resk-update", "resk-update"));
    assert!(!text_eq("resk-update", "resk-updatE"));
    assert!(!text_eq("resk", "resk-update"));
    assert!(text_eq("", ""));
}

#[test]
fn decimal_string_matches_decimal_notation() {
    assert_eq!(decimal_string(0), "0");
    assert_eq!(decimal_string(7), "7");
    assert_eq!(decimal_string(10), "10");
    assert_eq!(decimal_string(8080), "8080");
    assert_eq!(decimal_string(40009), "40009");
    assert_eq!(decimal_string(65535), "65535");
}

#[test]
fn joined_puts_two_texts_together() {
    assert_eq!(joined("127.0.0.1:", "4000"), "127.0.0.1:4000");
    assert_eq!(joined("", ""), "");
}

#[test]
fn address_host_is_third_piece_of_multiaddress() {
    assert_eq!(address_host("/ip4/10.0.0.5/tcp/4001"), Some("10.0.0.5".to_string()));
    assert_eq!(address_host("/ip4/192.168.1.7/udp/5000/quic-v1"), Some("192.168.1.7".to_string()));
    assert_eq!(address_host("/ip6/fe80::1/tcp/1"), Some("fe80::1".to_string()));
    assert_eq!(address_host("/ip4/10.0.0.5"), Some("10.0.0.5".to_string()));
}

#[test]
fn address_host_is_missing_for_short_multiaddress() {
    assert_eq!(address_host(""), None);
    assert_eq!(address_host("/quic-v1"), None);
    assert_eq!(address_host("/ip4/"), Some(String::new()));
}

use aegis::node_config::{parse_peers, parse_usize, PeerEntry};

fn peer(id: &str, addr: &str) -> PeerEntry {
    PeerEntry::Peer { peer_id: id.to_string(), peer_addr: addr.to_string() }
}

#[test]
fn test_parse_peers_list() {
    let entries = parse_peers("node-2=node-2:50051,node-3=node-3:50051");
    assert_eq!(entries, vec![peer("node-2", "node-2:50051"), peer("node-3", "node-3:50051")]);
}

#[test]
fn test_parse_peers_trims_and_skips_empty_pieces() {
    let entries = parse_peers(" a = 1.2.3.4:5 ,,b=x,");
    assert_eq!(entries, vec![peer("a", "1.2.3.4:5"), peer("b", "x")]);
}

#[test]
fn test_parse_peers_splits_at_first_equals() {
    let entries = parse_peers("a=b=c");
    assert_eq!(entries, vec![peer("a", "b=c")]);
}

#[test]
fn test_parse_peers_malformed_entry() {
    let entries = parse_peers("node-2,node-3=h:1");
    assert_eq!(
        entries,
        vec![PeerEntry::Malformed { entry: "node-2".to_string() }, peer("node-3", "h:1")]
    );
}

#[test]
fn test_parse_peers_empty_text() {
    assert!(parse_peers("").is_empty());
    assert!(parse_peers(",,,").is_empty());
}

#[test]
fn test_parse_usize_matches_std() {
    for text in ["0", "16384", "+7", "", "+", "-1", "12a", " 5", "18446744073709551615", "18446744073709551616"] {
        assert_eq!(parse_usize(text), text.parse::<usize>().ok(), "text {:?}", text);
    }
    assert_eq!(parse_usize("67108864"), Some(67108864));
}

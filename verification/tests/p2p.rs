use chudo::p2p::{handle_message, handshake_message, peer_id_for_address, Message, PeerAction};

#[test]
fn peers_are_answered() {
    match handle_message(Message::Handshake { version: "0.7.0".to_string(), peer_id: "p9".to_string() }) {
        PeerAction::RegisterPeer { peer_id, version } => {
            assert_eq!(peer_id, "p9");
            assert_eq!(version, "0.7.0");
        }
        other => panic!("unexpected {:?}", other),
    }
    assert!(matches!(handle_message(Message::Ping), PeerAction::ReplyPong));
    assert!(matches!(handle_message(Message::NewTransaction(vec![0; 5])), PeerAction::ReportTransaction { len: 5 }));
    assert!(matches!(handle_message(Message::NewBlock(vec![0; 7])), PeerAction::ReportBlock { len: 7 }));
    assert!(matches!(handle_message(Message::Pong), PeerAction::Ignore));
    assert!(matches!(handle_message(Message::GetPeers), PeerAction::Ignore));
    assert!(matches!(handle_message(Message::GetBlock("x".to_string())), PeerAction::Ignore));
}

#[test]
fn handshake_and_peer_ids() {
    match handshake_message(&"me".to_string()) {
        Message::Handshake { version, peer_id } => {
            assert_eq!(version, "0.7.0");
            assert_eq!(peer_id, "me");
        }
        other => panic!("unexpected {:?}", other),
    }
    assert_eq!(peer_id_for_address("127.0.0.1:8000"), "peer_127.0.0.1:8000");
}

use chudo::messenger::incentive::{IncentiveCalculator, RewardClaim};
use chudo::messenger::node::{Message, MessengerError, MessengerEvent, MessengerNode};
use chudo::messenger::storage::MessageStorage;
use chudo::node::grpc_server::{
    HealthCheckRequest, NodeGrpcService, SubmitBlockRequest, SubmitTransactionRequest, SyncBlocksRequest,
};
use chudo::node::messenger_server::{
    event_to_proto, send_reply, ClaimRequest, HistoryRequest, IdentityRequest, MessengerGrpcService, SendMessageRequest,
};
use chudo::node::node_status::{CommandRequest, MyNode};
use std::sync::Arc;

fn message(nonce: Option<Vec<u8>>) -> Message {
    Message {
        id: "m1".to_string(),
        from: "a".to_string(),
        to: "b".to_string(),
        content: "hi".to_string(),
        timestamp: 1700000000,
        signature: vec![0x0f, 0xf0],
        is_encrypted: true,
        nonce,
    }
}

#[test]
fn messenger_node_identity_and_rewards() {
    let node = MessengerNode::new().ok().unwrap();
    assert!(node.start().is_ok());
    let id = node.get_identity().ok().unwrap();
    assert_eq!(id.peer_id, "peer_123");
    assert_eq!(id.blockchain_address, "0x123");
    assert_eq!(id.public_key, vec![1, 2, 3]);
    assert_eq!(id.encryption_public_key, vec![4, 5, 6]);
    assert_eq!(id.nickname, Some("User".to_string()));
    let r = node.claim_rewards("0xabc").ok().unwrap();
    assert_eq!(r.proof, vec![1, 2, 3]);
    assert_eq!(r.amount, 100);
    assert!(node.get_history("x", 10).ok().unwrap().is_empty());
    assert!(MessengerNode::new_with_db_path("/tmp/db").is_ok());
}

#[test]
fn message_ids_are_uuid_v4() {
    let node = MessengerNode::new().ok().unwrap();
    let a = node.send_message("bob", "hi").ok().unwrap();
    let b = node.send_message("bob", "hi").ok().unwrap();
    assert_eq!(a.len(), 36);
    assert_eq!(a.as_bytes()[14], b'4');
    assert_eq!(a.as_bytes()[8], b'-');
    assert_ne!(a, b);
    for id in [&a, &b] {
        for (i, c) in id.chars().enumerate() {
            if [8, 13, 18, 23].contains(&i) {
                assert_eq!(c, '-');
            } else {
                assert!(c.is_ascii_digit() || ('a'..='f').contains(&c));
            }
        }
        assert!(['8', '9', 'a', 'b'].contains(&id.chars().nth(19).unwrap()));
    }
}

#[test]
fn send_reply_carries_the_id_or_the_error() {
    let ok = send_reply(Ok("id-1".to_string()));
    assert!(ok.success);
    assert_eq!(ok.message_id, "id-1");
    assert_eq!(ok.error, "");
    let err = send_reply(Err(MessengerError { message: "down".to_string() }));
    assert!(!err.success);
    assert_eq!(err.message_id, "");
    assert_eq!(err.error, "down");
}

#[test]
fn messenger_service_answers() {
    let svc = MessengerGrpcService::new(Arc::new(MessengerNode));
    let sent = svc.send_message(SendMessageRequest { to: "b".to_string(), content: "c".to_string() });
    assert!(sent.success);
    assert_eq!(sent.message_id.len(), 36);
    assert_eq!(sent.error, "");
    let id = svc.get_identity(IdentityRequest).ok().unwrap();
    assert_eq!(id.public_key, "010203");
    assert_eq!(id.encryption_public_key, "040506");
    assert_eq!(id.nickname, "User");
    assert_eq!(id.peer_id, "peer_123");
    let h = svc.get_history(HistoryRequest { with_user: "b".to_string(), limit: 5 }).ok().unwrap();
    assert!(h.messages.is_empty());
    let c = svc.claim_rewards(ClaimRequest { blockchain_address: "x".to_string() });
    assert_eq!(c.claim_id, "010203");
    assert_eq!(c.amount, 100);
    assert!(c.success);
}

#[test]
fn events_for_subscribers() {
    let p = event_to_proto(MessengerEvent::MessageReceived(message(Some(vec![0xaa])))).unwrap();
    assert_eq!(p.signature, "0ff0");
    assert_eq!(p.nonce, "aa");
    assert_eq!(p.channel, "");
    assert_eq!(p.timestamp, 1700000000);
    assert!(p.is_encrypted);
    let p = event_to_proto(MessengerEvent::MessageReceived(message(None))).unwrap();
    assert_eq!(p.nonce, "");
    assert!(event_to_proto(MessengerEvent::Connected("x".to_string())).is_none());
    assert!(event_to_proto(MessengerEvent::Disconnected("x".to_string())).is_none());
}

#[test]
fn identity_without_nickname_is_anon() {
    let data = chudo::messenger::node::IdentityData {
        peer_id: "p".to_string(),
        blockchain_address: "a".to_string(),
        public_key: vec![0xde, 0xad],
        encryption_public_key: vec![],
        nickname: None,
    };
    let r = chudo::node::messenger_server::identity_to_proto(data);
    assert_eq!(r.nickname, "Anon");
    assert_eq!(r.public_key, "dead");
    assert_eq!(r.encryption_public_key, "");
}

#[test]
fn incentive_and_storage_stubs() {
    let calc = IncentiveCalculator::new();
    assert_eq!(calc.calculate_reward(3, "x"), RewardClaim);
    let st = MessageStorage::new("/tmp/x").ok().unwrap();
    assert!(st.get_conversation("a", "b", 10).ok().unwrap().is_empty());
    assert!(st.get_all_messages(10).ok().unwrap().is_empty());
}

#[test]
fn node_service_stubs() {
    let svc = NodeGrpcService;
    let h = svc.health_check(HealthCheckRequest);
    assert!(h.healthy);
    assert_eq!(h.version, "0.9.1");
    assert_eq!(h.block_height, 0);
    let t = svc.submit_transaction(SubmitTransactionRequest { transaction_data: vec![1], tx_hash: "h".to_string() });
    assert!(t.success);
    assert_eq!(t.message, "Transaction accepted");
    assert_eq!(t.tx_hash, "mock_tx_hash_123");
    let b = svc.submit_block(SubmitBlockRequest { block_data: vec![], block_hash: "h".to_string(), height: 1 });
    assert_eq!(b.message, "Block accepted");
    assert_eq!(b.block_hash, "mock_block_hash_456");
    let s = svc.sync_blocks(SyncBlocksRequest { from_height: 0, to_height: 10 });
    assert!(s.blocks.is_empty());
    assert!(!s.has_more);
}

#[test]
fn status_node_counts_up() {
    let mut n = MyNode::default();
    assert_eq!(n.get_status().block_height, 0);
    n.advance_height();
    n.advance_height();
    let st = n.get_status();
    assert!(st.running);
    assert_eq!(st.block_height, 2);
    assert_eq!(st.peer_count, 21);
    assert_eq!(st.last_block_hash, "0000abc123...");
    let r = n.send_command(CommandRequest { command: "x".to_string() });
    assert!(r.success);
    assert_eq!(r.message, "OK");
}

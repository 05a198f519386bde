//! The messenger service: a front for the messenger node that answers with
//! plain values, bytes as hexadecimal text.

use vstd::prelude::*;
use vstd::string::StringExecFns;
use std::sync::Arc;
use crate::hexcodec::{hex_encode, spec_hex_encode};
use crate::node::grpc::{Code, Status};
use crate::messenger::node::{
    IdentityData, Message, MessengerEvent, MessengerNode, is_uuid_v4_text,
};

verus! {

pub struct SendMessageRequest {
    pub to: String,
    pub content: String,
}

pub struct SendMessageResponse {
    pub message_id: String,
    pub success: bool,
    pub error: String,
}

pub struct IdentityRequest;

pub struct IdentityResponse {
    pub public_key: String,
    pub peer_id: String,
    pub nickname: String,
    pub encryption_public_key: String,
}

pub struct HistoryRequest {
    pub with_user: String,
    pub limit: u32,
}

/// A message as the service reports it.
#[derive(Debug, Clone)]
pub struct ProtoMessage {
    pub id: String,
    pub from: String,
    pub to: String,
    pub content: String,
    pub timestamp: i64,
    pub signature: String,
    pub channel: String,
    pub is_encrypted: bool,
    pub nonce: String,
}

pub struct HistoryResponse {
    pub messages: Vec<ProtoMessage>,
}

pub struct SubscribeRequest;

pub struct ClaimRequest {
    pub blockchain_address: String,
}

pub struct ClaimResponse {
    pub claim_id: String,
    pub amount: u64,
    pub success: bool,
}

/// Whether `p` reports `m`: the same text fields and time, signature and
/// nonce as hexadecimal text (no nonce reads as empty text), no channel.
pub open spec fn reports_message(p: ProtoMessage, m: Message) -> bool {
    &&& p.id@ == m.id@
    &&& p.from@ == m.from@
    &&& p.to@ == m.to@
    &&& p.content@ == m.content@
    &&& p.timestamp == m.timestamp
    &&& p.signature@ == spec_hex_encode(m.signature@)
    &&& p.channel@ == Seq::<char>::empty()
    &&& p.is_encrypted == m.is_encrypted
    &&& p.nonce@ == match m.nonce {
        Some(n) => spec_hex_encode(n@),
        None => Seq::<char>::empty(),
    }
}

/// The report of a message.
pub fn message_to_proto(m: Message) -> (r: ProtoMessage)
    ensures
        reports_message(r, m),
{
    let signature = hex_encode(m.signature.as_slice());
    let nonce = match &m.nonce {
        Some(n) => hex_encode(n.as_slice()),
        None => String::new(),
    };
    ProtoMessage {
        id: m.id,
        from: m.from,
        to: m.to,
        content: m.content,
        timestamp: m.timestamp,
        signature,
        channel: String::new(),
        is_encrypted: m.is_encrypted,
        nonce,
    }
}

/// What a subscriber is sent for an event: received messages are reported,
/// other events are not.
pub fn event_to_proto(event: MessengerEvent) -> (r: Option<ProtoMessage>)
    ensures
        match event {
            MessengerEvent::MessageReceived(m) => r matches Some(p) && reports_message(p, m),
            _ => r is None,
        },
{
    match event {
        MessengerEvent::MessageReceived(m) => Some(message_to_proto(m)),
        _ => None,
    }
}

/// The messenger service.
pub struct MessengerGrpcService {
    core: Arc<MessengerNode>,
}

/// The reply to a send: the node's id with success, or its error's text
/// with failure and an empty id.
pub fn send_reply(sent: Result<String, crate::messenger::node::MessengerError>) -> (r: SendMessageResponse)
    ensures
        match sent {
            Ok(id) => r.success && r.message_id@ == id@ && r.error@ == Seq::<char>::empty(),
            Err(e) => !r.success && r.message_id@ == Seq::<char>::empty() && r.error@ == e.message@,
        },
{
    match sent {
        Ok(id) => SendMessageResponse { message_id: id, success: true, error: String::new() },
        Err(e) => SendMessageResponse { message_id: String::new(), success: false, error: e.message },
    }
}

impl MessengerGrpcService {
    /// The messenger node the service answers for.
    pub closed spec fn node(&self) -> Arc<MessengerNode> {
        self.core
    }

    /// A service in front of `core`.
    pub fn new(core: Arc<MessengerNode>) -> (r: Self)
        ensures
            r.node() == core,
    {
        MessengerGrpcService { core }
    }

    /// Sends the message; the response carries the new id and success, or
    /// the error's text and failure.
    pub fn send_message(&self, request: SendMessageRequest) -> (r: SendMessageResponse)
        ensures
            r.success && is_uuid_v4_text(r.message_id@) && r.error@ == Seq::<char>::empty(),
    {
        send_reply(self.core.send_message(request.to.as_str(), request.content.as_str()))
    }

    /// The node's identity: keys as hexadecimal text, "Anon" for a missing nickname.
    pub fn get_identity(&self, request: IdentityRequest) -> (r: Result<IdentityResponse, Status>)
        ensures
            r matches Ok(id) && id.public_key@ == spec_hex_encode(seq![1u8, 2u8, 3u8])
                && id.peer_id@ == "peer_123"@ && id.nickname@ == "User"@
                && id.encryption_public_key@ == spec_hex_encode(seq![4u8, 5u8, 6u8]),
    {
        match self.core.get_identity() {
            Ok(data) => Ok(identity_to_proto(data)),
            Err(e) => Err(Status { code: Code::Internal, message: e.message }),
        }
    }

    /// The history with a user, each message reported.
    pub fn get_history(&self, request: HistoryRequest) -> (r: Result<HistoryResponse, Status>)
        ensures
            r matches Ok(h) && h.messages@.len() == 0,
    {
        match self.core.get_history(request.with_user.as_str(), request.limit as usize) {
            Ok(messages) => Ok(HistoryResponse { messages: messages_to_proto(messages) }),
            Err(e) => Err(Status { code: Code::Internal, message: e.message }),
        }
    }

    /// Claims the rewards: the proof as hexadecimal text is the claim id.
    pub fn claim_rewards(&self, request: ClaimRequest) -> (r: ClaimResponse)
        ensures
            r.claim_id@ == spec_hex_encode(seq![1u8, 2u8, 3u8]) && r.amount == 100 && r.success,
    {
        match self.core.claim_rewards(request.blockchain_address.as_str()) {
            Ok(reward) => ClaimResponse {
                claim_id: hex_encode(reward.proof.as_slice()),
                amount: reward.amount as u64,
                success: true,
            },
            Err(_) => ClaimResponse { claim_id: String::new(), amount: 0, success: false },
        }
    }
}

/// The identity as the service reports it.
pub fn identity_to_proto(data: IdentityData) -> (r: IdentityResponse)
    ensures
        r.public_key@ == spec_hex_encode(data.public_key@),
        r.peer_id@ == data.peer_id@,
        r.nickname@ == match data.nickname {
            Some(n) => n@,
            None => "Anon"@,
        },
        r.encryption_public_key@ == spec_hex_encode(data.encryption_public_key@),
{
    let public_key = hex_encode(data.public_key.as_slice());
    let encryption_public_key = hex_encode(data.encryption_public_key.as_slice());
    let nickname = match data.nickname {
        Some(n) => n,
        None => String::from_str("Anon"),
    };
    IdentityResponse { public_key, peer_id: data.peer_id, nickname, encryption_public_key }
}

/// Reports of a list of messages, in order.
pub fn messages_to_proto(messages: Vec<Message>) -> (r: Vec<ProtoMessage>)
    ensures
        r@.len() == messages@.len(),
        forall|i: int| 0 <= i < messages@.len() ==> reports_message(#[trigger] r@[i], messages@[i]),
{
    let mut out: Vec<ProtoMessage> = Vec::new();
    let ghost all = messages@;
    let mut rest = messages;
    let mut i: usize = 0;
    let n = rest.len();
    while rest.len() > 0
        invariant
            n == all.len(),
            i + rest@.len() == n,
            rest@ == all.subrange(i as int, n as int),
            out@.len() == i,
            forall|j: int| 0 <= j < i ==> reports_message(#[trigger] out@[j], all[j]),
        decreases rest@.len(),
    {
        let m = rest.remove(0);
        out.push(message_to_proto(m));
        i = i + 1;
    }
    out
}

} // verus!

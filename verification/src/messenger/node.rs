//! The messenger node's interface: identity, messages, history and rewards.

use vstd::prelude::*;
use vstd::string::StringExecFns;

verus! {

/// What a node tells about itself.
#[derive(Clone, Debug)]
pub struct IdentityData {
    pub peer_id: String,
    pub blockchain_address: String,
    pub public_key: Vec<u8>,
    pub encryption_public_key: Vec<u8>,
    pub nickname: Option<String>,
}

/// A chat message; `timestamp` is in seconds since the Unix epoch (UTC).
#[derive(Clone, Debug)]
pub struct Message {
    pub id: String,
    pub from: String,
    pub to: String,
    pub content: String,
    pub timestamp: i64,
    pub signature: Vec<u8>,
    pub is_encrypted: bool,
    pub nonce: Option<Vec<u8>>,
}

/// A reward claimed for relaying messages.
#[derive(Clone, Debug)]
pub struct Reward {
    pub proof: Vec<u8>,
    pub amount: i64,
}

/// Something that happened on the node.
#[derive(Clone, Debug)]
pub enum MessengerEvent {
    MessageReceived(Message),
    Connected(String),
    Disconnected(String),
}

/// Why a messenger operation failed.
#[derive(Debug, Clone)]
pub struct MessengerError {
    pub message: String,
}

/// The messenger node.
pub struct MessengerNode;

/// Whether `c` is a lower-case hexadecimal digit.
pub open spec fn is_lower_hex_digit(c: char) -> bool {
    ('0' <= c && c <= '9') || ('a' <= c && c <= 'f')
}

/// Whether position `i` of hyphenated UUID text holds a hyphen.
pub open spec fn is_uuid_hyphen_position(i: int) -> bool {
    i == 8 || i == 13 || i == 18 || i == 23
}

/// Whether `s` is the lower-case hyphenated text of a version-4 UUID of
/// the RFC variant: 36 characters, hyphens at positions 8, 13, 18 and 23,
/// lower-case hexadecimal digits elsewhere, the version digit `4` at
/// position 14 and a variant digit of `8`, `9`, `a` or `b` at position 19.
pub open spec fn is_uuid_v4_text(s: Seq<char>) -> bool {
    &&& s.len() == 36
    &&& forall|i: int|
        0 <= i < 36 ==> if is_uuid_hyphen_position(i) {
            #[trigger] s[i] == '-'
        } else {
            is_lower_hex_digit(s[i])
        }
    &&& s[14] == '4'
    &&& (s[19] == '8' || s[19] == '9' || s[19] == 'a' || s[19] == 'b')
}

/// Calls `uuid::Uuid::new_v4` and renders the id with `to_string`.
/// Claimed: the text is a lower-case hyphenated version-4 UUID of the RFC
/// variant, as `is_uuid_v4_text` spells out: `new_v4` sets the version and
/// variant bits, and `to_string` (through `format_hyphenated` with
/// lower-case digits) writes two hexadecimal digits per byte and the four
/// hyphens. The id itself is random.
#[verifier::external_body]
fn new_message_id() -> (r: String)
    ensures
        is_uuid_v4_text(r@),
{
    uuid::Uuid::new_v4().to_string()
}

impl MessengerNode {
    /// A node.
    pub fn new() -> (r: Result<Self, MessengerError>)
        ensures
            r is Ok,
    {
        Ok(MessengerNode)
    }

    /// A node whose messages would be kept at `path`.
    pub fn new_with_db_path(path: &str) -> (r: Result<Self, MessengerError>)
        ensures
            r is Ok,
    {
        Ok(MessengerNode)
    }

    /// Starts the node.
    pub fn start(&self) -> (r: Result<(), MessengerError>)
        ensures
            r is Ok,
    {
        Ok(())
    }

    /// Sends `content` to `to` and returns the new message's id.
    pub fn send_message(&self, to: &str, content: &str) -> (r: Result<String, MessengerError>)
        ensures
            r matches Ok(id) && is_uuid_v4_text(id@),
    {
        Ok(new_message_id())
    }

    /// This node's identity.
    pub fn get_identity(&self) -> (r: Result<IdentityData, MessengerError>)
        ensures
            r matches Ok(d) && {
                &&& d.peer_id@ == "peer_123"@
                &&& d.blockchain_address@ == "0x123"@
                &&& d.public_key@ == seq![1u8, 2u8, 3u8]
                &&& d.encryption_public_key@ == seq![4u8, 5u8, 6u8]
                &&& d.nickname matches Some(n) && n@ == "User"@
            },
    {
        let data = IdentityData {
            peer_id: String::from_str("peer_123"),
            blockchain_address: String::from_str("0x123"),
            public_key: vec![1u8, 2u8, 3u8],
            encryption_public_key: vec![4u8, 5u8, 6u8],
            nickname: Some(String::from_str("User")),
        };
        assert(data.public_key@ =~= seq![1u8, 2u8, 3u8]);
        assert(data.encryption_public_key@ =~= seq![4u8, 5u8, 6u8]);
        Ok(data)
    }

    /// The last `limit` messages exchanged with `with_user`; none are kept.
    pub fn get_history(&self, with_user: &str, limit: usize) -> (r: Result<Vec<Message>, MessengerError>)
        ensures
            r matches Ok(v) && v@.len() == 0,
    {
        Ok(Vec::new())
    }

    /// Claims the rewards earned by `address`.
    pub fn claim_rewards(&self, address: &str) -> (r: Result<Reward, MessengerError>)
        ensures
            r matches Ok(rw) && rw.proof@ == seq![1u8, 2u8, 3u8] && rw.amount == 100,
    {
        let rw = Reward { proof: vec![1u8, 2u8, 3u8], amount: 100 };
        assert(rw.proof@ =~= seq![1u8, 2u8, 3u8]);
        Ok(rw)
    }
}

} // verus!

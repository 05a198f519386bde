//! Message storage; nothing is kept.

use vstd::prelude::*;
use crate::messenger::node::MessengerError;
use crate::messenger::protocol::Message;

verus! {

/// A store of messages.
pub struct MessageStorage;

impl MessageStorage {
    /// A store at `path`.
    pub fn new(path: &str) -> (r: Result<Self, MessengerError>)
        ensures
            r is Ok,
    {
        Ok(MessageStorage)
    }

    /// Stores `msg`.
    pub fn store_message(&self, msg: &Message) -> (r: Result<(), MessengerError>)
        ensures
            r is Ok,
    {
        Ok(())
    }

    /// The last `limit` messages between `me` and `other`: none.
    pub fn get_conversation(&self, me: &str, other: &str, limit: usize) -> (r: Result<Vec<Message>, MessengerError>)
        ensures
            r matches Ok(v) && v@.len() == 0,
    {
        Ok(Vec::new())
    }

    /// The last `limit` messages: none.
    pub fn get_all_messages(&self, limit: usize) -> (r: Result<Vec<Message>, MessengerError>)
        ensures
            r matches Ok(v) && v@.len() == 0,
    {
        Ok(Vec::new())
    }
}

} // verus!

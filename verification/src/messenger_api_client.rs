//! The client of the messenger service's API.
use vstd::prelude::*;
use crate::extensions::messenger_ext::MessengerExtError;

verus! {

/// A client of the messenger API, holding the token it authenticates with.
pub struct MessengerApiClient {
    api_token: String,
}

impl MessengerApiClient {
    /// The token the client authenticates with.
    pub closed spec fn token(&self) -> Seq<char> {
        self.api_token@
    }

    /// A client that authenticates with `api_token`.
    pub fn new(api_token: String) -> (c: Self)
        ensures
            c.token() == api_token@,
    {
        MessengerApiClient { api_token }
    }

    /// Sends `text` as the reply to the message `message_hash_id`.
    ///
    /// The service has no API behind it yet: every message is accepted.
    pub fn send_message(&self, message_hash_id: String, text: String) -> (r: Result<
        (),
        MessengerExtError,
    >)
        ensures
            r is Ok,
    {
        Ok(())
    }
}

} // verus!

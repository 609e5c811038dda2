//! The messenger extension: replies leave through the messenger API.
use vstd::prelude::*;
use crate::messenger_api_client::MessengerApiClient;

verus! {

/// What can go wrong on the way to or from the messenger.
pub enum MessengerExtError {
    /// The channel to the neuron was closed; holds the message
    /// (message hash id, text) that could not be handed over.
    ChannelSend((String, String)),
    /// The messenger API refused the message, for the reason given.
    MessengerApi(String),
}

impl MessengerExtError {
    /// The error as a sentence.
    pub fn to_string(&self) -> (r: String)
        ensures
            r@ == match self {
                MessengerExtError::ChannelSend(_) => "Channel send error: channel closed"@,
                MessengerExtError::MessengerApi(reason) => "Messenger API error: "@ + reason@,
            },
    {
        match self {
            MessengerExtError::ChannelSend(_) => String::from_str("Channel send error: channel closed"),
            MessengerExtError::MessengerApi(reason) => {
                let mut r = String::from_str("Messenger API error: ");
                r.append(reason.as_str());
                r
            },
        }
    }
}

/// The outgoing side of the messenger extension: it sends the neuron's
/// replies through the messenger API.
pub struct MessengerOutExt {
    api_client: MessengerApiClient,
}

impl MessengerOutExt {
    /// The client the replies go through.
    pub closed spec fn client(&self) -> MessengerApiClient {
        self.api_client
    }

    /// An extension that sends through `api_client`.
    pub fn new(api_client: MessengerApiClient) -> (e: Self)
        ensures
            e.client() == api_client,
    {
        MessengerOutExt { api_client }
    }

    /// Sends `text` as the reply to the message `message_hash_id` through the
    /// client; the client's error is passed on.
    pub fn send_message(&self, message_hash_id: String, text: String) -> (r: Result<
        (),
        MessengerExtError,
    >)
        ensures
            r is Ok,
    {
        self.api_client.send_message(message_hash_id, text)
    }
}

} // verus!

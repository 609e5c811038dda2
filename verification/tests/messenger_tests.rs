use neurox::activation::{ReLU, Sigmoid};
use neurox::extensions::{MessengerExtError, MessengerOutExt};
use neurox::messenger_api_client::MessengerApiClient;
use neurox::weight_init::XavierUniform;

#[test]
fn api_client_accepts_messages() {
    let client = MessengerApiClient::new("SECRET-REDACTED".to_string());
    assert!(client.send_message("h1".to_string(), "hello".to_string()).is_ok());
}

#[test]
fn out_extension_sends_through_client() {
    let ext = MessengerOutExt::new(MessengerApiClient::new("token".to_string()));
    assert!(ext.send_message("h2".to_string(), "reply".to_string()).is_ok());
}

#[test]
fn error_messages() {
    let e = MessengerExtError::ChannelSend(("h".to_string(), "t".to_string()));
    assert_eq!(e.to_string(), "Channel send error: channel closed");
    let e = MessengerExtError::MessengerApi("rate limited".to_string());
    assert_eq!(e.to_string(), "Messenger API error: rate limited");
}

#[test]
fn unit_types_exist() {
    let _ = (ReLU, Sigmoid, XavierUniform);
}

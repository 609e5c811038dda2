//! NeuroX: the supervisor's record of what the neurons report and its answers
//! to the operator's chat commands, the messenger extension, and the names of
//! the activation functions and of the weight initializer.
pub mod activation;
pub mod extensions;
pub mod messenger_api_client;
pub mod supervisor;
pub mod table;
pub mod telegram_bot;
pub mod weight_init;

//! The extensions that connect a neuron to the outside world.
pub mod messenger_ext;

pub use messenger_ext::{MessengerExtError, MessengerOutExt};

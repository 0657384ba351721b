//! A small hardware-abstraction layer for byte-oriented SPI transports.
//!
//! Device drivers talk to a [`Connection`], which owns exactly one transport
//! implementing [`Stream`] and forwards every operation to it unchanged. The
//! same driver code can thus run against a real bus device or against the
//! scripted [`MockStream`].

mod connection;
mod mock;
mod stream;

pub use connection::{lemma_connection_is_its_transport, Connection};
pub use mock::{
    answer, answers, fill, lemma_echo_transfer, lemma_transfer_answers_programmed, lemma_write_keeps_answers,
    MockStream,
};
pub use stream::{bytes_of, Stream};

//! A byte-oriented framing protocol ("C/MRI") for fixed-format
//! control/status messages over a serial or serial-like transport.
//!
//! The core is the framing/escaping state machine: a byte-by-byte
//! receiver that decodes the stream into typed messages, and the paired
//! encoder that serialises a message into the escaped wire form, both
//! with bounded, pre-allocated buffers.

pub mod decoder;
pub mod error;
pub mod laws;
pub mod message;
pub mod node_types;
pub mod packet;
pub mod parser;
pub mod processor;

pub use decoder::CmriState;
pub use decoder::CmriStateMachine;
pub use decoder::RxState;
pub use error::Error;
pub use node_types::NodeType;
pub use packet::CmriPacket;
pub use processor::CmriProcessor;
pub use message::CmriMessage;
pub use message::MessageType;
pub use message::needs_escape;
pub use message::payload_from_slice;
pub use message::CMRI_ESCAPE_BYTE;
pub use message::CMRI_PREAMBLE_BYTE;
pub use message::CMRI_START_BYTE;
pub use message::CMRI_STOP_BYTE;
pub use message::MAX_PAYLOAD_LEN;
pub use message::TX_BUFFER_LEN;

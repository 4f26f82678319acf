//! Connection-oriented L2CAP channels for a Bluetooth Low Energy host: a
//! fixed table of channel slots, their connection state machine, credit-based
//! flow control, and segmentation and reassembly of SDUs into frames.
pub mod channel;
pub mod error;
pub mod manager;
pub mod sar;

//! Core reliability, acknowledgement and transport-parameter machinery of a
//! QUIC endpoint, with its behaviour stated as contracts.

pub mod varint;
pub mod cid;
pub mod error;
pub mod frame;
pub mod rtt;
pub mod rcvd;
pub mod reliable;
pub mod space;
pub mod param;
pub mod dispatch;
pub mod tx;
pub mod listener;
pub mod data_space;
pub mod coordinator;


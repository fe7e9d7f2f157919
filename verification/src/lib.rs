//! Protocol engine of a UDP companion link: datagram framing, client
//! liveness, reassembly of fragmented images and the decisions of the
//! socket engine, stated and proved over plain values.

pub mod action;
pub mod bus;
pub mod client;
pub mod decoders;
pub mod handler;
pub mod history;
pub mod jpeg_decoder;
pub mod packet;

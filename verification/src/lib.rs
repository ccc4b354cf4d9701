//! Core logic of an intercepting proxy for the MAPI wire protocol.

pub mod accumulator;
pub mod address;
pub mod analyzer;
pub mod copying;
pub mod error;
pub mod event;
pub mod forward;
pub mod hexdump;
pub mod mapi;
pub mod mybufread;
pub mod network;
pub mod pcap;
pub mod proxy;
pub mod reassembly;
pub mod registered;
pub mod render;
pub mod tcp;
pub mod text;

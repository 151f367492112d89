//! Line-delimited JSON-RPC 2.0 over UDP.
//!
//! A datagram carries JSON-RPC messages, one to a line. This library holds what a
//! client and a server of that protocol have to decide, and leaves sockets, standard
//! input and output to the program around it:
//!
//! - `envelope` says what a request and a response must look like, and `document`
//!   and `message` read them from text and write them;
//! - `packer` joins messages into payloads that never exceed a capacity, and `lines`
//!   splits a payload into its messages again;
//! - `call` is the client: it packs requests, counts the responses to wait for, and
//!   takes the responses in;
//! - `echo` is the server that answers each call with the request itself;
//! - `json` is the gateway to the `nojson` crate, which reads and writes the JSON;
//! - `text` and `utils` hold small helpers.

pub mod call;
pub mod document;
pub mod echo;
pub mod envelope;
pub mod json;
pub mod lines;
pub mod message;
pub mod packer;
pub mod text;
pub mod utils;

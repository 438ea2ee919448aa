//! The server side of one HTTP/1.1 connection: body framing, the request
//! head decoder, the response head encoder, the timer and the decisions of
//! the connection loop, verified over byte sequences.

pub mod body;
pub mod buf;
pub mod coding;
pub mod coding_laws;
pub mod config;
pub mod content_encoding;
pub mod context;
pub mod decode;
pub mod dispatcher;
pub mod encode;
pub mod error;
pub mod head;
pub mod io;
pub mod notify;
pub mod num;
pub mod octets;
pub mod redirect;
pub mod response_laws;
pub mod service;
pub mod text;
pub mod timer;
pub mod uri;
pub mod value;
pub mod wire_laws;
pub mod ws;

//! The core of a small HTTP/1.1 server: head parsing, body decoding, the
//! connection socket, response bodies and the WebSocket event logic.
pub mod body;
pub mod chunked;
pub mod console;
pub mod conn;
pub mod date;
pub mod head;
pub mod listen;
pub mod node_wasi;
pub mod ops;
pub mod registry;
pub mod request;
pub mod response;
pub mod socket;
pub mod surface;
pub mod wasi;
pub mod websocket;

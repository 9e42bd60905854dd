//! A WebSocket tunnel for unary gRPC calls.
//!
//! A browser cannot speak HTTP/2 framing directly, so each call travels as one
//! binary WebSocket frame: a `Call` from client to server, a `Reply` back.
//! This crate holds the verified core of both endpoints:
//!
//! - `varint`, `wire`, `text`, `number`: the protobuf wire format, field by
//!   field;
//! - `header`, `body`, `envelope`, `message`: the framing messages, how they
//!   are written and read, and the proof that what was written reads back;
//! - `model`: plain models of HTTP requests and responses;
//! - `validate`: what the `http` crate accepts, asked of the crate itself;
//! - `codec`: the conversions between HTTP and the framing messages, and the
//!   proof that a request or response survives them;
//! - `oneshot`: the body that the gRPC stack reads a tunnelled message from;
//! - `status`: gRPC statuses as HTTP responses, built by `tonic`;
//! - `server`: the route table and what each inbound frame leads to;
//! - `client`: framing a request and sorting out what comes back;
//! - `connection`: the turn-taking of calls on one connection.
//!
//! Sockets, the HTTP server and everything that has to wait live outside this
//! crate; they hand it plain values and act on what it answers.

pub mod error;
pub mod varint;
pub mod wire;
pub mod text;
pub mod number;
pub mod header;
pub mod body;
pub mod envelope;
pub mod message;
pub mod model;
pub mod validate;
pub mod codec;
pub mod status;
pub mod server;
pub mod client;
pub mod connection;
pub mod oneshot;

pub use client::{
    connect_outcome, decode_response, encode_request, finish_call, received, Opening, WsMessage,
};
pub use codec::{
    call_to_http_request, http_request_to_call, http_response_to_reply, reply_to_http_response,
};
pub use connection::Connection;
pub use error::WebTonicError;
pub use message::{Body, Call, Header, Method, Reply, Request, Response};
pub use model::{HttpBody, HttpHeader, HttpRequest, HttpResponse};
pub use oneshot::OneShotBody;
pub use server::{
    after_send, handle_frame, handle_response, Frame, Route, Router, Server, Step, Target,
    Unimplemented,
};
pub use status::Code;

//! The logic of a bridge between a client of the Messages API and an agent that runs as a
//! command-line program.
//!
//! A client sends its whole transcript with every request ([`http`], [`request`]). The bridge
//! turns it into a prompt ([`prompt`]) for a run of the agent ([`agent`]), or, where it
//! recognises the conversation, only what is new of it ([`session`]). The agent answers with
//! JSON events ([`json`]), line by line, which become a stream of events for the client
//! ([`streaming`], [`sse`], [`tool_call`]) or one reply ([`blocking`]). The agent repeats what it
//! has streamed, and the bridge drops the repetition ([`text_stream`]).
//!
//! What holds across functions, for all inputs, is stated in the modules whose names end in
//! `_laws`, in words that [`facts`] gives.
//!
//! Reading from sockets and processes, and writing to them, is left to the program around the
//! library: the types here take what has been read and say what to do next.

pub mod agent;
pub mod agent_laws;
pub mod block_laws;
pub mod blocking;
pub mod facts;
pub mod http;
pub mod http_laws;
pub mod json;
pub mod prompt;
pub mod prompt_laws;
pub mod request;
pub mod session;
pub mod session_laws;
pub mod sse;
pub mod stream_laws;
pub mod streaming;
pub mod text;
pub mod text_laws;
pub mod text_stream;
pub mod tool_call;
pub mod tool_laws;

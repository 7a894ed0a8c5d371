// TinyFusion core: the decision logic of an OpenAI-compatible gateway that
// routes chat requests either straight to an upstream model or through a
// deliberation pipeline (panel of models, then a judge), with a token budget,
// session tracking and streaming helpers. Every function here is verified;
// the HTTP server, file I/O and async plumbing live in app/.
pub mod budget;
pub mod calendar;
pub mod chat;
pub mod clock;
pub mod complexity;
pub mod config;
pub mod dashboard;
pub mod events;
pub mod harness;
pub mod json;
pub mod moa;
pub mod numfmt;
pub mod oracle;
pub mod proxy;
pub mod session;
pub mod sniffer;
pub mod strmap;
pub mod text;
pub mod tool_call_parser;
pub mod types;

//! The bridge between a conversational-agent engine and a GUI client: the single active
//! session, thread resolution and caching, turn admission, and the stateful translation of
//! the engine's event stream into the client protocol, with collaborative calls reported
//! once and pending approvals and user-input requests tracked until answered.
use vstd::prelude::*;

pub mod answers;
pub mod bounded_set;
pub mod capabilities;
pub mod collab;
pub mod diagnose;
pub mod events;
pub mod git_status;
pub mod handles;
pub mod history;
pub mod input;
pub mod json;
pub mod laws;
pub mod mcp;
pub mod mcp_result;
pub mod order;
pub mod pending;
pub mod raw_collab;
pub mod respond;
pub mod review;
pub mod runtime_config;
pub mod session;
pub mod text;
pub mod text_map;
pub mod translator;
pub mod turns;
pub mod tool_name;

verus! {

} // verus!

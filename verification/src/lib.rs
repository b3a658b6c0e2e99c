//! The decision logic of an AI workspace platform: debug containers for
//! projects, flows of model agents, streamed chat with tool calls, and a
//! document and vector service, each function with a proved contract.
pub mod text;
pub mod flow;
pub mod tool_calls;
pub mod chunking;
pub mod tasks;
pub mod paths;
pub mod compose;
pub mod prompts;
pub mod agent;
pub mod ontology;
pub mod memory;
pub mod docker;
pub mod mcp;
pub mod workspace;
pub mod assign;
pub mod search;
pub mod rerank;
pub mod export;
pub mod service;
pub mod local_chat;
pub mod llm;

//! Verified core of a local-first notes application: Markdown tags, mentions and
//! snippets; the SQL statements of the memo, attachment, reaction, link, setting, tag,
//! chat and review stores and how their rows are read back; sharing rules and the
//! peer-to-peer frame codec; the assistant's tool loop and streamed answers; the LLM runner
//! and MCP server configuration and state; attachment file naming.
use vstd::prelude::*;

pub mod agent;
pub mod ai;
pub mod attachment;
pub mod attachment_url;
pub mod cache;
pub mod chat_session;
pub mod commands;
pub mod document;
pub mod error;
pub mod file_storage;
pub mod import_export;
pub mod lan;
pub mod llm_runner;
pub mod markdown;
pub mod mcp;
pub mod mcp_http;
pub mod memo;
pub mod memo_relation;
pub mod reaction;
pub mod review;
pub mod review_store;
pub mod setting;
pub mod sse;
pub mod tag;
pub mod sql;
pub mod text;
pub mod thumbnail;
pub mod types;

verus! {

} // verus!

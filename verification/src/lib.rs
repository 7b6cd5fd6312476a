//! Beluna core logic: the AI gateway's routing, error mapping, reliability
//! and budget rules, chat-thread bookkeeping, admission of intent attempts,
//! request payload limits and the command line grammars.
pub mod text;
pub mod error;
pub mod types;
pub mod router;
pub mod json;
pub mod chat_types;
pub mod message;
pub mod metadata;
pub mod turn;
pub mod thread_types;
pub mod thread;
pub mod affordance;
pub mod admission;
pub mod admission_batch;
pub mod tool;
pub mod canonical;
pub mod capabilities;
pub mod chat_capabilities;
pub mod body;
pub mod cli;
pub mod reliability;
pub mod budget;
pub mod afferent;
pub mod frames;
pub mod dispatch;
pub mod stream_task;
pub mod completion;
pub mod store;
pub mod thread_store;
pub mod tool_chain;
pub mod store_turn;
pub mod json_tree;
pub mod replies;
pub mod openai_stream;
pub mod chat_replies;
pub mod wire_out;
pub mod chat_wire;
pub mod canonical_wire;
pub mod rpc_frame;
pub mod copilot;
pub mod cli_client;
pub mod responses;
pub mod endpoints;

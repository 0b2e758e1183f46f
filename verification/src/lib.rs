//! A semantic cache for LLM responses: the decisions of a gateway policy
//! that answers a chat request from an earlier, similar one.
//!
//! Nothing here does I/O. Calls to the embedder and to the vector store are
//! values that are sent elsewhere, and their replies are handed back.

pub mod azure;
pub mod config;
pub mod digest;
pub mod driver;
pub mod embed;
pub mod engine;
pub mod error;
pub mod extract;
pub mod ieee;
pub mod json;
pub mod key;
pub mod pinecone;
pub mod policy;
pub mod qdrant;
pub mod replay;
pub mod store;
pub mod text;

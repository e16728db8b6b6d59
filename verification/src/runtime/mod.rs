pub mod admission;
pub mod admitted;
pub mod body;
pub mod cache;
pub mod event_loop;
pub mod mcp;
pub mod paging;
pub mod publish;
pub mod recording;
pub mod render;
pub mod search;
pub mod services;
pub mod transactions;
pub mod wait;

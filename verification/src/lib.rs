//! Archival and retention pipeline for the message history of a chat channel.

pub mod archival;
pub mod assets;
pub mod cache;
pub mod confirmations;
pub mod download;
pub mod error_handle;
pub mod extension;
pub mod history;
pub mod message;
pub mod messages_iter;
pub mod naming;
pub mod packager;
pub mod reporter;
pub mod scan;
pub mod state;
pub mod text;
pub mod wiping;

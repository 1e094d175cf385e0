//! The decisions behind a card synchronisation service: what to ask the card
//! source for, how to read what it sends, and what to keep of it.

pub mod bulk;
pub mod bulk_cache;
pub mod bulk_fetch;
pub mod cards;
pub mod clock;
pub mod data;
pub mod discord;
pub mod emoji;
pub mod emoji_laws;
pub mod error;
pub mod rate;
pub mod response;
pub mod search;
pub mod sets;
pub mod source;
pub mod text;

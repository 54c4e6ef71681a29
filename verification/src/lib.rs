//! Mailwind's mail logic.
pub mod account;
pub mod actions;
pub mod changes;
pub mod codec;
pub mod compose;
pub mod fetched;
pub mod folder_pass;
pub mod gmail;
pub mod gmail_api;
pub mod gmail_scan;
pub mod gmail_setup;
pub mod header;
pub mod html;
pub mod imap_id;
pub mod imap_scan;
pub mod imap_setup;
pub mod jobs;
pub mod json;
pub mod message;
pub mod mime;
pub mod moves;
pub mod msgid;
pub mod number;
pub mod oauth;
pub mod query;
pub mod search;
pub mod secret_deletion;
pub mod sending;
pub mod store;
pub mod text;
pub mod words;

//! Synchronisation to Notion: the page tree's routing, the records and
//! plans of the database mode, the parsing of Notion's replies, the smoke
//! checks and the decisions of the sync runs.

pub mod client;
pub mod content;
pub mod notion_api;
pub mod payload;
pub mod render;
pub mod service;
pub mod smoke;
pub mod tree;
pub mod xhs_page;

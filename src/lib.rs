//! A configurable web crawler: admission rules, link resolution, page
//! classification and a traversal state machine whose decisions are proved.
pub mod address;
pub mod crawl;
pub mod page;
pub mod rules;
pub mod visited;


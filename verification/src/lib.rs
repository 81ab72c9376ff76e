//! A library that organizes a repository's open change-requests ("PRs") into
//! a dependency forest keyed by branch relationships, renders that forest as
//! a nested HTML list, and keeps the latest rendered snapshot per repository
//! in a store that a presentation layer reads.

pub mod forest;
pub mod numfmt;
pub mod pages;
pub mod poller;
pub mod record;
pub mod store;

pub use record::bot;

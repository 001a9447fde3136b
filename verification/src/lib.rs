//! Two-way synchronisation of a local feed reader with a server that speaks
//! the Google Reader API.

pub mod text;
pub mod number;
pub mod provider;
pub mod freshrss;
pub mod wire;
pub mod outside;
pub mod http;
pub mod account;
pub mod session;
pub mod auto_sync;
pub mod edits;
pub mod feeds;
pub mod article;
pub mod feed_ids;
pub mod apply;
pub mod subscriptions;
pub mod run;
pub mod start;

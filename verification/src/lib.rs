//! Core of a small text browser for the Micron markup language: a verified
//! single-pass parser/renderer that turns a document into styled text
//! segments, together with the plain data types the surrounding application
//! shell exchanges with it (page cache, settings, tabs, messages).

use vstd::prelude::*;

pub mod api;
pub mod browser;
pub mod interface;
pub mod pages;
pub mod ren_settings;
pub mod renderers;
pub mod shortcuts;
pub mod styles;
mod text;

pub use api::{ApiStatus, Node};
pub use renderers::mu_renderer::{MicronRenderer, MicronStyle, RendererType, TextAlignment};

verus! {

/// Messages from the asynchronous collaborators (the node-network service
/// and the page fetcher) back to the application.
#[derive(Debug, Clone)]
pub enum Message {
    ApiStatusReceived(Box<Result<ApiStatus, String>>),
    NodesUpdated(Box<Result<Vec<Node>, String>>),
    PageLoaded(Box<Result<String, String>>),
    OpenSettings,
    LinkClicked(String),
    ToggleHtmlRenderer(bool),
}

} // verus!

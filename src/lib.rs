//! The message bridge between a page's script and the host of an embedded webview:
//! the envelope codec, the callback registry, the dispatcher and the reply scripts.

pub mod decimal;
pub mod js_literal;
pub mod json;
pub mod envelope;
pub mod file_drop;
pub mod registry;
pub mod reply;
pub mod route;


//! File drop events that a webview reports to its host.
use vstd::prelude::*;

verus! {

/// The stage of a file drop onto a window.
#[derive(Clone, Debug, PartialEq)]
pub enum FileDropEvent {
    /// The data has been dragged onto the window, but has not been dropped yet.
    Hovered(FileDropData),
    /// The data has been dropped onto the window.
    Dropped(FileDropData),
    /// The drop was aborted.
    Cancelled,
}

/// What was dropped onto a window.
#[derive(Clone, Debug, PartialEq)]
pub enum FileDropData {
    /// File paths, each as its text.
    Paths(Vec<String>),
    /// A valid UTF-8 string.
    Unicode(String),
    /// Raw bytes that are not valid UTF-8.
    Binary(Vec<u8>),
}

} // verus!

//! Capture-and-annotation session engine: coordinate mapping, line
//! rasterisation, bitmap editing with reversible history, capture planning
//! and hotkey dispatch.

pub mod bitmap;
pub mod capture;
pub mod engine;
pub mod hotkeys_utils;
pub mod session;
pub mod tool_utils;

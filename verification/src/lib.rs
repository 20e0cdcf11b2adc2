//! Verified core of a terminal dashboard for a tiling compositor: the
//! snapshot data model and its wire-format codec, the selection tables, and
//! the screen-stack navigation state machine. Terminal rendering and socket
//! I/O live outside the library and only perform what the core hands them.

pub mod app;
pub mod digits;
pub mod hypr;
pub mod json;
pub mod screen;
pub mod selection;

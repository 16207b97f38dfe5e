//! Right Panel: the logic of a side panel that lives at the screen edge —
//! clipboard transforms, the plugin host's rules and stores, and the
//! decisions that drive the edge and clipboard watchers.
pub mod bridge;
pub mod document;
pub mod json;
pub mod keyed;
pub mod manifest;
pub mod plugins;
pub mod storage;
pub mod sys;
pub mod text;
pub mod transform;
pub mod util;
pub mod watch;

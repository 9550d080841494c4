pub mod options;

pub use options::{InnerModelKind, SyncLevelType};

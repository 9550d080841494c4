pub mod dates;
pub mod filters;
pub mod id;
pub mod mutex;
pub mod nullable_option;
pub mod number;
pub mod reference;
pub mod reference_api;
pub mod uuid;

pub use id::DBId;
pub use mutex::{DBMutex, DBMutexField};
pub use nullable_option::NullableOption;
pub use reference::{DBReference, DBReferenceKey};
pub use reference_api::{APIReference, APIReferenceKey};
pub use uuid::DBUuid;

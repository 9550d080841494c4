pub mod document;
pub mod document_api;
pub mod document_edge;
pub mod document_synchronized;
pub mod normalize;
pub mod utils;

pub use document::DBDocument;
pub use document_api::APIDocument;
pub use document_edge::DBEdgeDocument;
pub use document_synchronized::DBSynchronizedDocument;
pub use normalize::{DBNormalize, DBNormalizeResult};

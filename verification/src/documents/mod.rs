pub mod fields;

pub use fields::DBDocumentField;

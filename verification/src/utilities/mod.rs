pub mod db_mutex;

pub use db_mutex::errors::DBMutexError;

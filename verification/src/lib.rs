//! A minimal object-relational layer over an embedded SQL engine: rows,
//! schemas, the statements sent to the engine, the error taxonomy, and the
//! identity-preserving transactional cache.

mod backend;
pub mod cache;
pub mod data;
pub mod error;
pub mod laws;
pub mod naming;
pub mod object;
pub mod sql;
pub mod storage;
pub mod text;
pub mod transaction;

pub use cache::{ObjectState, Write};
pub use data::{AsDataType, DataType, ObjectId, Value};
pub use error::{
    ErrorCtx, ErrorWithCtx, Fault, MissingColumnError, NotFoundError, OrmError,
    UnexpectedTypeError,
};
pub use object::{Field, Object, Schema};
pub use storage::StorageTransaction;
pub use transaction::{Ending, Resolution, Transaction, Tx};

pub use crate::codec::{Codec, Decoder, Encoder, SchemaError};
pub use crate::database::{DBError, DBStats, Direction, IteratorMode, IteratorWithSchema};
pub use crate::database::{KeyValueStoreWithSchema, SledDBWrapper};
pub use crate::db_iterator::{DBIterationHandler, DBIterator};
pub use crate::schema::KeyValueSchema;

//! A word-frequency table with the exact semantics of a small
//! single-table datastore: rows of `(word, count)` are added, searched,
//! dumped, edited and deleted, with substring matching used by the
//! write-verification and delete paths and exact matching used by search.

pub mod laws;
pub mod record;
pub mod substring;
pub mod table;

pub use record::CustomError;
pub use record::NewTable;
pub use record::Table;
pub use record::TableView;
pub use table::WordTable;

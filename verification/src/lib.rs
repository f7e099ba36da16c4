//! A verified data-access core for a crossword-puzzle storage service.
//!
//! The library models the `crossword` table (id, series, date, document) and
//! provides the four repository operations: listing the ids of a series,
//! listing the metadata of a series, fetching one puzzle by series and id,
//! and bulk-inserting puzzles. Each operation carries a contract that pins
//! down its result and its errors; the surrounding I/O (connection pooling,
//! SQL execution, HTTP) lives outside the library.

pub mod guardian;
pub mod json;
pub mod models;
pub mod repository;

pub use guardian::GuardianCrossword;
pub use models::crossword_to_insertable;
pub use models::AppError;
pub use models::Crossword;
pub use models::CrosswordMetadata;
pub use models::Date;
pub use models::InsertableCrossword;
pub use repository::CrosswordRepository;

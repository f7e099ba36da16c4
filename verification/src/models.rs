//! Domain types of the storage layer: the calendar date, the table row, the
//! metadata projection, the write-side projection, and the error taxonomy.

use vstd::prelude::*;

use crate::json::clone_value;

verus! {

/// A calendar date, held as plain year / month / day numbers.
///
/// The layer performs no calendar validation: the date is carried through
/// storage as data.
#[derive(Clone, Copy, Debug, PartialEq, Eq, Structural)]
pub struct Date {
    pub year: u32,
    pub month: u32,
    pub day: u32,
}

/// The errors a repository operation can surface.
///
/// `CrosswordNotFound` carries the id that was looked up and not found;
/// `InternalServerError` carries a diagnostic message with no promised
/// structure.
#[derive(Debug)]
pub enum AppError {
    CrosswordNotFound(String),
    InternalServerError(String),
}

/// The three-field projection of a row, returned when listing a series.
#[derive(Debug)]
pub struct CrosswordMetadata {
    pub id: String,
    pub series: String,
    pub date: Date,
}

/// One row of the `crossword` table: a unique id, the series it belongs to,
/// its publication date, and the puzzle document itself.
pub struct Crossword {
    pub id: String,
    pub series: String,
    pub date: Date,
    pub crossword_json: serde_json::Value,
}

/// The write-side shape of a row: it borrows the entity's string fields and
/// copies the rest, and lives only while an insert statement is being built.
pub struct InsertableCrossword<'a> {
    pub id: &'a str,
    pub series: &'a str,
    pub date: Date,
    pub crossword_json: serde_json::Value,
}

/// Projects an entity onto its write-side shape, field for field.
pub fn crossword_to_insertable<'a>(crossword_to_insert: &'a Crossword) -> (r: InsertableCrossword<
    'a,
>)
    ensures
        r.id@ == crossword_to_insert.id@,
        r.series@ == crossword_to_insert.series@,
        r.date == crossword_to_insert.date,
        r.crossword_json == crossword_to_insert.crossword_json,
{
    InsertableCrossword {
        id: crossword_to_insert.id.as_str(),
        series: crossword_to_insert.series.as_str(),
        date: crossword_to_insert.date,
        crossword_json: clone_value(&crossword_to_insert.crossword_json),
    }
}

} // verus!

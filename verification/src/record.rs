//! The record shapes stored in the word table and the error taxonomy of
//! the operations that maintain it.

use vstd::prelude::*;
use vstd::string::StringExecFns;

verus! {

/// The mathematical value of one stored row: its word as a sequence of
/// characters and its signed count.
pub struct TableView {
    pub word: Seq<char>,
    pub count: i32,
}

/// One row of the word table: a word and its count.
#[derive(Debug)]
pub struct Table {
    pub word: String,
    pub count: i32,
}

impl View for Table {
    type V = TableView;

    open spec fn view(&self) -> TableView {
        TableView { word: self.word@, count: self.count }
    }
}

impl Clone for Table {
    fn clone(&self) -> (r: Self)
        ensures
            r == *self,
    {
        Table { word: self.word.clone(), count: self.count }
    }
}

/// The shape of a row about to be inserted: it borrows the word and the
/// count from the caller and is turned into an owned row at insertion.
pub struct NewTable<'a> {
    pub word: &'a str,
    pub count: &'a i32,
}

impl<'a> NewTable<'a> {
    /// Builds the owned row that this insert shape stands for.
    pub fn to_row(&self) -> (r: Table)
        ensures
            r@ == (TableView { word: self.word@, count: *self.count }),
    {
        Table { word: String::from_str(self.word), count: *self.count }
    }
}

/// An operation failure, tagged by the failing operation and carrying the
/// offending word and count.
#[derive(Debug)]
pub enum CustomError {
    /// The verification re-read after an insert did not find exactly one
    /// row whose word contains the inserted word as a substring.
    AddError(String, i32),
    /// The verification re-read after an update did not find exactly one
    /// row whose word contains the edited word as a substring and whose
    /// count is the new count.
    EditError(String, i32),
}

} // verus!

//! The word-frequency table and its five operations: add, search, dump,
//! edit and delete. The write operations (add, edit) confirm their effect
//! with a verification re-read that selects rows by substring containment,
//! search scans only the first five rows with exact matching, and delete
//! removes every substring match.

use vstd::prelude::*;
use vstd::string::StringExecFns;

use crate::record::CustomError;
use crate::record::NewTable;
use crate::record::Table;
use crate::record::TableView;
use crate::substring::contains_word;
use crate::substring::lemma_contains_word_self;
use crate::substring::str_contains;

verus! {

/// The mathematical contents of a sequence of stored rows.
pub open spec fn rows_view(s: Seq<Table>) -> Seq<TableView> {
    s.map_values(|t: Table| t@)
}

/// Whether the substring filter for the query word `w` selects a row.
pub open spec fn row_matches(r: TableView, w: Seq<char>) -> bool {
    contains_word(r.word, w)
}

/// The rows selected, in table order, by the substring filter for `w`:
/// the model of a verification re-read.
pub open spec fn matching(rows: Seq<TableView>, w: Seq<char>) -> Seq<TableView> {
    rows.filter(|r: TableView| row_matches(r, w))
}

/// The rows that survive deleting the query word `w`: those whose word
/// does not contain `w` as a substring.
pub open spec fn spec_delete(rows: Seq<TableView>, w: Seq<char>) -> Seq<TableView> {
    rows.filter(|r: TableView| !row_matches(r, w))
}

/// The first row at or after position `i` whose word equals `w` exactly.
pub open spec fn first_exact_from(rows: Seq<TableView>, w: Seq<char>, i: int) -> Option<
    TableView,
>
    decreases rows.len() - i,
{
    if i < 0 || i >= rows.len() {
        None
    } else if rows[i].word == w {
        Some(rows[i])
    } else {
        first_exact_from(rows, w, i + 1)
    }
}

/// The first row whose word equals `w` exactly.
pub open spec fn first_exact(rows: Seq<TableView>, w: Seq<char>) -> Option<TableView> {
    first_exact_from(rows, w, 0)
}

/// The rows a dump with limit `n` returns: the first `n` in storage
/// order. A negative limit means no limit, as the datastore's native
/// LIMIT clause has it.
pub open spec fn spec_dump(rows: Seq<TableView>, n: i64) -> Seq<TableView> {
    if n < 0 || n >= rows.len() {
        rows
    } else {
        rows.take(n as int)
    }
}

/// The page that search inspects: only the first five stored rows.
pub open spec fn search_page(rows: Seq<TableView>) -> Seq<TableView> {
    spec_dump(rows, 5)
}

/// What search returns: the first exact match within the first five rows.
/// A word stored beyond that page is invisible to search.
pub open spec fn spec_search(rows: Seq<TableView>, w: Seq<char>) -> Option<TableView> {
    first_exact(search_page(rows), w)
}

/// The table after editing `w` to count `c`: every row whose word equals
/// `w` exactly gets the new count, all others are untouched.
pub open spec fn spec_edit(rows: Seq<TableView>, w: Seq<char>, c: i32) -> Seq<TableView> {
    rows.map_values(
        |r: TableView|
            if r.word == w {
                TableView { word: r.word, count: c }
            } else {
                r
            },
    )
}

/// Whether the verification re-read after an edit succeeds: exactly one
/// substring match for `w`, and its count is the new count.
pub open spec fn edit_ok(rows: Seq<TableView>, w: Seq<char>, c: i32) -> bool {
    matching(rows, w).len() == 1 && matching(rows, w)[0].count == c
}

/// The substring filter of the empty table selects nothing.
pub proof fn lemma_matching_empty(w: Seq<char>)
    ensures
        matching(Seq::<TableView>::empty(), w) == Seq::<TableView>::empty(),
{
    reveal(Seq::filter);
}

/// Appending a row extends the substring filter's selection by that row
/// exactly when the row matches.
pub proof fn lemma_matching_push(rows: Seq<TableView>, w: Seq<char>, e: TableView)
    ensures
        matching(rows.push(e), w) == if row_matches(e, w) {
            matching(rows, w).push(e)
        } else {
            matching(rows, w)
        },
{
    reveal(Seq::filter);
    assert(rows.push(e).drop_last() =~= rows);
}

/// When no row matches the query word, the substring filter selects
/// nothing.
pub proof fn lemma_matching_none(rows: Seq<TableView>, w: Seq<char>)
    requires
        forall|i: int| 0 <= i < rows.len() ==> !row_matches(#[trigger] rows[i], w),
    ensures
        matching(rows, w) == Seq::<TableView>::empty(),
    decreases rows.len(),
{
    if rows.len() == 0 {
        assert(rows =~= Seq::<TableView>::empty());
        lemma_matching_empty(w);
    } else {
        lemma_matching_none(rows.drop_last(), w);
        lemma_matching_push(rows.drop_last(), w, rows.last());
        assert(rows.drop_last().push(rows.last()) =~= rows);
    }
}

/// Appending a row extends the deletion survivors by that row exactly
/// when the row does not match.
pub proof fn lemma_delete_push(rows: Seq<TableView>, w: Seq<char>, e: TableView)
    ensures
        spec_delete(rows.push(e), w) == if !row_matches(e, w) {
            spec_delete(rows, w).push(e)
        } else {
            spec_delete(rows, w)
        },
{
    reveal(Seq::filter);
    assert(rows.push(e).drop_last() =~= rows);
}

/// Deleting from the empty table leaves nothing.
pub proof fn lemma_delete_empty(w: Seq<char>)
    ensures
        spec_delete(Seq::<TableView>::empty(), w) == Seq::<TableView>::empty(),
{
    reveal(Seq::filter);
}

/// When no row at or after position `i` is an exact match, the scan from
/// `i` finds nothing.
pub proof fn lemma_first_exact_from_none(rows: Seq<TableView>, w: Seq<char>, i: int)
    requires
        0 <= i <= rows.len(),
        forall|j: int| i <= j < rows.len() ==> #[trigger] rows[j].word != w,
    ensures
        first_exact_from(rows, w, i) is None,
    decreases rows.len() - i,
{
    if i < rows.len() {
        lemma_first_exact_from_none(rows, w, i + 1);
    }
}

/// Returns, in table order, every given row whose word contains
/// `word_val` as a substring.
fn matching_rows(rows: &Vec<Table>, word_val: &str) -> (out: Vec<Table>)
    ensures
        rows_view(out@) == matching(rows_view(rows@), word_val@),
{
    let ghost all = rows_view(rows@);
    let mut out: Vec<Table> = Vec::new();
    proof {
        assert(all.take(0) =~= Seq::<TableView>::empty());
        lemma_matching_empty(word_val@);
        assert(rows_view(out@) =~= Seq::<TableView>::empty());
    }
    let mut i: usize = 0;
    while i < rows.len()
        invariant
            i <= rows.len(),
            all == rows_view(rows@),
            rows_view(out@) == matching(all.take(i as int), word_val@),
        decreases rows.len() - i,
    {
        proof {
            assert(all.take(i + 1) =~= all.take(i as int).push(all[i as int]));
            lemma_matching_push(all.take(i as int), word_val@, all[i as int]);
        }
        if str_contains(rows[i].word.as_str(), word_val) {
            let ghost before = out@;
            out.push(rows[i].clone());
            proof {
                assert(rows_view(out@) =~= rows_view(before).push(all[i as int]));
            }
        }
        i += 1;
    }
    proof {
        assert(all.take(rows@.len() as int) =~= all);
    }
    out
}

/// The decision taken after an insert's verification re-read: the single
/// selected row on success, and the add failure carrying the word and
/// count when the re-read did not find exactly one match.
pub fn check_add(results: Vec<Table>, word_val: &str, count_val: &i32) -> (r: Result<
    Table,
    CustomError,
>)
    ensures
        r is Ok <==> results@.len() == 1,
        r matches Ok(t) ==> t@ == rows_view(results@)[0],
        r matches Err(e) ==> (e matches CustomError::AddError(w, c) && w@ == word_val@ && c
            == *count_val),
{
    if results.len() == 1 {
        Ok(results[0].clone())
    } else {
        Err(CustomError::AddError(String::from_str(word_val), *count_val))
    }
}

/// The decision taken after an update's verification re-read: success
/// exactly when one row was selected and it carries the new count, and
/// the edit failure with the word and count otherwise.
pub fn check_edit(results: &Vec<Table>, word_val: &str, count_val: i32) -> (r: Result<
    (),
    CustomError,
>)
    ensures
        r is Ok <==> (rows_view(results@).len() == 1 && rows_view(results@)[0].count
            == count_val),
        r matches Err(e) ==> (e matches CustomError::EditError(w, c) && w@ == word_val@ && c
            == count_val),
{
    if results.len() == 1 {
        if results[0].count == count_val {
            return Ok(());
        }
    }
    Err(CustomError::EditError(String::from_str(word_val), count_val))
}

/// The in-memory exact scan over a loaded page of rows: the first row
/// whose word equals `word_val`, or nothing.
pub fn scan_page(results: &Vec<Table>, word_val: &str) -> (r: Option<Table>)
    ensures
        r is Some <==> first_exact(rows_view(results@), word_val@) is Some,
        r matches Some(t) ==> first_exact(rows_view(results@), word_val@) == Some(t@),
{
    let ghost all = rows_view(results@);
    let wv = String::from_str(word_val);
    let mut i: usize = 0;
    while i < results.len()
        invariant
            i <= results.len(),
            wv@ == word_val@,
            all == rows_view(results@),
            first_exact(all, word_val@) == first_exact_from(all, word_val@, i as int),
        decreases results.len() - i,
    {
        if results[i].word == wv {
            return Some(results[i].clone());
        }
        i += 1;
    }
    None
}

/// The word-frequency table: its rows in storage order.
pub struct WordTable {
    pub rows: Vec<Table>,
}

impl View for WordTable {
    type V = Seq<TableView>;

    open spec fn view(&self) -> Seq<TableView> {
        rows_view(self.rows@)
    }
}

impl WordTable {
    /// Creates an empty table.
    pub fn new() -> (t: WordTable)
        ensures
            t@ == Seq::<TableView>::empty(),
    {
        let t = WordTable { rows: Vec::new() };
        proof {
            assert(rows_view(t.rows@) =~= Seq::<TableView>::empty());
        }
        t
    }

    /// Returns, in table order, every stored row whose word contains
    /// `word_val` as a substring: the verification re-read used by the
    /// write operations.
    pub fn substring_matches(&self, word_val: &str) -> (out: Vec<Table>)
        ensures
            rows_view(out@) == matching(self@, word_val@),
    {
        matching_rows(&self.rows, word_val)
    }

    /// Adds a row for `word_val` with `count_val`. The row is stored
    /// unconditionally; the operation then re-reads the rows whose word
    /// contains `word_val` as a substring and succeeds exactly when that
    /// re-read finds one row, which it returns. Since the new row always
    /// matches its own word, success is equivalent to no prior row
    /// matching.
    pub fn add_word(&mut self, word_val: &str, count_val: &i32) -> (r: Result<
        Table,
        CustomError,
    >)
        ensures
            final(self)@ == old(self)@.push((TableView { word: word_val@, count: *count_val })),
            r is Ok <==> matching(final(self)@, word_val@).len() == 1,
            r is Ok <==> matching(old(self)@, word_val@).len() == 0,
            r matches Ok(t) ==> t@ == (TableView { word: word_val@, count: *count_val }),
            r matches Err(e) ==> (e matches CustomError::AddError(w, c) && w@ == word_val@ && c
                == *count_val),
    {
        let ghost before = rows_view(old(self).rows@);
        let new_word = NewTable { word: word_val, count: count_val };
        let row = new_word.to_row();
        self.rows.push(row);
        proof {
            let nr = TableView { word: word_val@, count: *count_val };
            assert(rows_view(self.rows@) =~= before.push(nr));
            lemma_contains_word_self(word_val@);
            lemma_matching_push(before, word_val@, nr);
        }
        let results = matching_rows(&self.rows, word_val);
        check_add(results, word_val, count_val)
    }

    /// Searches for `word_val` by exact match, but only within the first
    /// five stored rows: a row stored beyond that page is not found.
    pub fn search_word(&self, word_val: &str) -> (r: Option<Table>)
        ensures
            r is Some <==> spec_search(self@, word_val@) is Some,
            r matches Some(t) ==> spec_search(self@, word_val@) == Some(t@),
    {
        let page = self.dump_word_table(5);
        scan_page(&page, word_val)
    }

    /// Returns the first `n` rows in storage order. A negative limit
    /// means no limit, as the datastore's native LIMIT clause has it.
    pub fn dump_word_table(&self, n: i64) -> (r: Vec<Table>)
        ensures
            rows_view(r@) == spec_dump(self@, n),
    {
        let ghost all = rows_view(self.rows@);
        let len = self.rows.len();
        let k: usize = if n < 0 {
            len
        } else if n as u64 >= len as u64 {
            len
        } else {
            n as usize
        };
        let mut out: Vec<Table> = Vec::new();
        proof {
            assert(rows_view(out@) =~= all.take(0));
        }
        let mut i: usize = 0;
        while i < k
            invariant
                i <= k,
                k <= self.rows.len(),
                all == rows_view(self.rows@),
                rows_view(out@) == all.take(i as int),
            decreases k - i,
        {
            let ghost before = out@;
            out.push(self.rows[i].clone());
            proof {
                assert(rows_view(out@) =~= rows_view(before).push(all[i as int]));
                assert(all.take(i + 1) =~= all.take(i as int).push(all[i as int]));
            }
            i += 1;
        }
        proof {
            if n < 0 || n >= all.len() {
                assert(all.take(len as int) =~= all);
            }
        }
        out
    }

    /// Sets the count of every row whose word equals `word_val` exactly,
    /// then re-reads the rows whose word contains `word_val` as a
    /// substring: the edit succeeds exactly when that re-read finds one
    /// row carrying the new count.
    pub fn edit_word(&mut self, word_val: &str, count_val: i32) -> (r: Result<(), CustomError>)
        ensures
            final(self)@ == spec_edit(old(self)@, word_val@, count_val),
            r is Ok <==> edit_ok(final(self)@, word_val@, count_val),
            r matches Err(e) ==> (e matches CustomError::EditError(w, c) && w@ == word_val@ && c
                == count_val),
    {
        let updated = edited_rows(&self.rows, word_val, count_val);
        self.rows = updated;
        let results = matching_rows(&self.rows, word_val);
        check_edit(&results, word_val, count_val)
    }

    /// Deletes every row whose word contains `word_val` as a substring,
    /// and succeeds unconditionally: deleting nothing is no error.
    pub fn del_word(&mut self, word_val: &str) -> (r: Result<(), CustomError>)
        ensures
            r is Ok,
            final(self)@ == spec_delete(old(self)@, word_val@),
    {
        let kept = retained_rows(&self.rows, word_val);
        self.rows = kept;
        Ok(())
    }
}

/// Returns the given rows with the count of every exact match for
/// `word_val` replaced by `count_val`.
fn edited_rows(rows: &Vec<Table>, word_val: &str, count_val: i32) -> (out: Vec<Table>)
    ensures
        rows_view(out@) == spec_edit(rows_view(rows@), word_val@, count_val),
{
    let ghost all = rows_view(rows@);
    let wv = String::from_str(word_val);
    let mut out: Vec<Table> = Vec::new();
    proof {
        assert(rows_view(out@) =~= spec_edit(all.take(0), word_val@, count_val));
    }
    let mut i: usize = 0;
    while i < rows.len()
        invariant
            i <= rows.len(),
            wv@ == word_val@,
            all == rows_view(rows@),
            rows_view(out@) == spec_edit(all.take(i as int), word_val@, count_val),
        decreases rows.len() - i,
    {
        let ghost before = out@;
        if rows[i].word == wv {
            out.push(Table { word: rows[i].word.clone(), count: count_val });
            proof {
                let e = TableView { word: all[i as int].word, count: count_val };
                assert(all[i as int].word == word_val@);
                assert(rows_view(out@) =~= rows_view(before).push(e));
                assert(all.take(i + 1) =~= all.take(i as int).push(all[i as int]));
                assert(spec_edit(all.take(i + 1), word_val@, count_val) =~= spec_edit(
                    all.take(i as int),
                    word_val@,
                    count_val,
                ).push(e));
            }
        } else {
            out.push(rows[i].clone());
            proof {
                let e = all[i as int];
                assert(e.word != word_val@);
                assert(rows_view(out@) =~= rows_view(before).push(e));
                assert(all.take(i + 1) =~= all.take(i as int).push(all[i as int]));
                assert(spec_edit(all.take(i + 1), word_val@, count_val) =~= spec_edit(
                    all.take(i as int),
                    word_val@,
                    count_val,
                ).push(e));
            }
        }
        i += 1;
    }
    proof {
        assert(all.take(rows@.len() as int) =~= all);
    }
    out
}

/// Returns the given rows without every row whose word contains
/// `word_val` as a substring.
fn retained_rows(rows: &Vec<Table>, word_val: &str) -> (out: Vec<Table>)
    ensures
        rows_view(out@) == spec_delete(rows_view(rows@), word_val@),
{
    let ghost all = rows_view(rows@);
    let mut out: Vec<Table> = Vec::new();
    proof {
        assert(all.take(0) =~= Seq::<TableView>::empty());
        lemma_delete_empty(word_val@);
        assert(rows_view(out@) =~= Seq::<TableView>::empty());
    }
    let mut i: usize = 0;
    while i < rows.len()
        invariant
            i <= rows.len(),
            all == rows_view(rows@),
            rows_view(out@) == spec_delete(all.take(i as int), word_val@),
        decreases rows.len() - i,
    {
        proof {
            assert(all.take(i + 1) =~= all.take(i as int).push(all[i as int]));
            lemma_delete_push(all.take(i as int), word_val@, all[i as int]);
        }
        if !str_contains(rows[i].word.as_str(), word_val) {
            let ghost before = out@;
            out.push(rows[i].clone());
            proof {
                assert(rows_view(out@) =~= rows_view(before).push(all[i as int]));
            }
        }
        i += 1;
    }
    proof {
        assert(all.take(rows@.len() as int) =~= all);
    }
    out
}

} // verus!

//! General laws of the table's operations, stated over the mathematical
//! model that the operations' contracts use.

use vstd::prelude::*;

use crate::record::TableView;
use crate::substring::lemma_contains_word_self;
use crate::table::edit_ok;
use crate::table::lemma_first_exact_from_none;
use crate::table::lemma_matching_none;
use crate::table::lemma_matching_push;
use crate::table::matching;
use crate::table::row_matches;
use crate::table::search_page;
use crate::table::spec_dump;
use crate::table::spec_edit;
use crate::table::spec_search;

verus! {

/// Adding a non-empty word that no stored word contains as a substring
/// leaves exactly one row for it: the verification re-read selects one
/// row, and a full-table scan finds the new `(word, count)` row exactly
/// once, at the end.
pub proof fn lemma_add_fresh_word_unique(rows: Seq<TableView>, w: Seq<char>, c: i32)
    requires
        w.len() > 0,
        forall|i: int| 0 <= i < rows.len() ==> !row_matches(#[trigger] rows[i], w),
    ensures
        ({
            let added = rows.push((TableView { word: w, count: c }));
            &&& matching(added, w).len() == 1
            &&& matching(added, w)[0] == (TableView { word: w, count: c })
            &&& forall|j: int|
                0 <= j < added.len() ==> ((#[trigger] added[j] == (TableView {
                    word: w,
                    count: c,
                })) <==> j == rows.len())
        }),
{
    let nr = TableView { word: w, count: c };
    let added = rows.push(nr);
    lemma_contains_word_self(w);
    lemma_matching_none(rows, w);
    lemma_matching_push(rows, w, nr);
    assert(matching(added, w) =~= Seq::<TableView>::empty().push(nr));
    assert forall|j: int| 0 <= j < added.len() implies ((added[j] == nr) <==> j
        == rows.len()) by {
        if j < rows.len() && added[j] == nr {
            assert(row_matches(rows[j], w));
        }
    }
}

/// Adding the same word twice leaves two rows with that word, and the
/// verification re-read of the second add then selects at least two rows,
/// so the second add fails.
pub proof fn lemma_add_twice_fails(rows: Seq<TableView>, w: Seq<char>, c1: i32, c2: i32)
    ensures
        ({
            let once = rows.push((TableView { word: w, count: c1 }));
            let twice = once.push((TableView { word: w, count: c2 }));
            &&& twice[rows.len() as int].word == w
            &&& twice[rows.len() as int + 1].word == w
            &&& matching(twice, w).len() >= 2
            &&& matching(twice, w).len() != 1
        }),
{
    let r1 = TableView { word: w, count: c1 };
    let r2 = TableView { word: w, count: c2 };
    let once = rows.push(r1);
    lemma_contains_word_self(w);
    lemma_matching_push(rows, w, r1);
    lemma_matching_push(once, w, r2);
}

/// A word stored only beyond the first five rows exists in the table and
/// is nevertheless not found: search scans no further than its page.
pub proof fn lemma_search_blind_beyond_page(rows: Seq<TableView>, w: Seq<char>)
    requires
        rows.len() > 5,
        exists|i: int| 5 <= i < rows.len() && #[trigger] rows[i].word == w,
        forall|i: int| 0 <= i < 5 ==> #[trigger] rows[i].word != w,
    ensures
        exists|i: int| 0 <= i < rows.len() && #[trigger] rows[i].word == w,
        spec_search(rows, w) is None,
{
    let page = search_page(rows);
    assert(forall|j: int| 0 <= j < page.len() ==> #[trigger] page[j].word != w);
    lemma_first_exact_from_none(page, w, 0);
}

/// A dump with a non-negative limit never returns more rows than the
/// limit, and a dump with limit zero returns nothing.
pub proof fn lemma_dump_bounded(rows: Seq<TableView>, n: i64)
    requires
        n >= 0,
    ensures
        spec_dump(rows, n).len() <= n,
        spec_dump(rows, 0) == Seq::<TableView>::empty(),
{
    if rows.len() == 0 {
        assert(rows =~= Seq::<TableView>::empty());
    } else {
        assert(rows.take(0) =~= Seq::<TableView>::empty());
    }
}

/// Editing a word with no exact match leaves the table unchanged, and
/// fails whenever the substring re-read does not happen to select exactly
/// one row already carrying the new count.
pub proof fn lemma_edit_absent_word(rows: Seq<TableView>, w: Seq<char>, c: i32)
    requires
        forall|i: int| 0 <= i < rows.len() ==> #[trigger] rows[i].word != w,
        !(matching(rows, w).len() == 1 && matching(rows, w)[0].count == c),
    ensures
        spec_edit(rows, w, c) == rows,
        !edit_ok(spec_edit(rows, w, c), w, c),
{
    assert(spec_edit(rows, w, c) =~= rows);
}

} // verus!

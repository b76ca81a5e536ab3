//! The cells of a grid as jobs, and the table assembled from their results.
//!
//! Row `0` is the top row of the image. Horizontal separators are sorted by
//! ascending `y`, which runs bottom to top, so rows take the gaps between
//! horizontal separators from the last pair down to the first. Columns take
//! the gaps between vertical separators from the first pair on.
use vstd::prelude::*;
use vstd::string::*;
use iter_tools::Itertools;
use crate::grid::Grid;
use crate::text::views;

verus! {

/// The cell at row `row` and column `col`, bounded by the vertical
/// separators at `x1`, `x2` and the horizontal ones at `y1`, `y2`.
#[derive(Clone, Copy, Debug, PartialEq, Eq)]
pub struct CellJob {
    pub row: usize,
    pub col: usize,
    pub x1: i64,
    pub x2: i64,
    pub y1: i64,
    pub y2: i64,
}

/// The job of the cell `(i, j)` over the positions `ys` and `xs`.
pub open spec fn job_at(ys: Seq<i64>, xs: Seq<i64>, i: int, j: int) -> CellJob {
    CellJob {
        row: i as usize,
        col: j as usize,
        x1: xs[j],
        x2: xs[j + 1],
        y1: ys[ys.len() - 2 - i],
        y2: ys[ys.len() - 1 - i],
    }
}

impl Grid {
    /// The number of rows and of columns of the table this grid yields.
    pub fn table_shape(&self) -> (r: (usize, usize))
        requires
            self.wf(),
        ensures
            r.0 == self.horizontals.len() - 1,
            r.1 == self.verticals.len() - 1,
    {
        (self.horizontals.len() - 1, self.verticals.len() - 1)
    }
}

/// One job for each cell of the grid, row by row.
pub fn plan_jobs(grid: &Grid) -> (r: Vec<Vec<CellJob>>)
    requires
        grid.wf(),
    ensures
        r@.len() == grid.horizontals.len() - 1,
        forall|i: int| 0 <= i < r@.len() ==> #[trigger] r@[i]@.len() == grid.verticals.len() - 1,
        forall|i: int, j: int|
            0 <= i < r@.len() && 0 <= j < grid.verticals.len() - 1 ==> #[trigger] r@[i]@[j]
                == job_at(grid.ys(), grid.xs(), i, j),
{
    let h = grid.horizontals.len();
    let v = grid.verticals.len();
    let mut r: Vec<Vec<CellJob>> = Vec::new();
    let mut i: usize = 0;
    while i < h - 1
        invariant
            h == grid.horizontals.len(),
            v == grid.verticals.len(),
            h >= 2,
            v >= 2,
            i <= h - 1,
            r@.len() == i,
            forall|a: int| 0 <= a < i ==> #[trigger] r@[a]@.len() == v - 1,
            forall|a: int, b: int|
                0 <= a < i && 0 <= b < v - 1 ==> #[trigger] r@[a]@[b] == job_at(
                    grid.ys(),
                    grid.xs(),
                    a,
                    b,
                ),
        decreases h - 1 - i,
    {
        let lo = grid.horizontals[h - 2 - i].y;
        let hi = grid.horizontals[h - 1 - i].y;
        let mut row: Vec<CellJob> = Vec::new();
        let mut j: usize = 0;
        while j < v - 1
            invariant
                h == grid.horizontals.len(),
                v == grid.verticals.len(),
                h >= 2,
                v >= 2,
                i < h - 1,
                j <= v - 1,
                lo == grid.ys()[h - 2 - i],
                hi == grid.ys()[h - 1 - i],
                row@.len() == j,
                forall|b: int| 0 <= b < j ==> #[trigger] row@[b] == job_at(grid.ys(), grid.xs(), i as int, b),
            decreases v - 1 - j,
        {
            row.push(
                CellJob {
                    row: i,
                    col: j,
                    x1: grid.verticals[j].x,
                    x2: grid.verticals[j + 1].x,
                    y1: lo,
                    y2: hi,
                },
            );
            j += 1;
        }
        r.push(row);
        i += 1;
    }
    r
}

/// Why the job of a cell produced no text.
#[derive(Clone, Copy, Debug, PartialEq, Eq)]
pub enum JobError {
    /// The cell's image could not be written.
    Export,
    /// The recogniser could not be started.
    Spawn,
    /// The recogniser exited with a failure.
    Exit,
    /// The recogniser's text file was missing or unreadable.
    OutputMissing,
    /// A temporary file could not be removed.
    Cleanup,
}

/// The cleaned text of the cell `(row, col)`.
#[derive(Clone, Debug)]
pub struct CellText {
    pub row: usize,
    pub col: usize,
    pub text: String,
}

/// The result of one job.
pub type JobOutcome = Result<CellText, JobError>;

/// The text that the outcomes `rs` give the cell `(i, j)`: that of the last
/// successful outcome for the cell, or empty where none succeeded.
pub open spec fn cell_text(rs: Seq<JobOutcome>, i: int, j: int) -> Seq<char>
    decreases rs.len(),
{
    if rs.len() == 0 {
        Seq::empty()
    } else {
        match rs.last() {
            Ok(c) if c.row == i && c.col == j => c.text@,
            _ => cell_text(rs.drop_last(), i, j),
        }
    }
}

/// Some outcome in `rs` is a success for the cell `(i, j)`.
pub open spec fn has_success(rs: Seq<JobOutcome>, i: int, j: int) -> bool {
    exists|k: int| 0 <= k < rs.len() && (#[trigger] rs[k] matches Ok(c) && c.row == i && c.col == j)
}

/// Every successful outcome in `rs` carries some text.
pub open spec fn successes_non_empty(rs: Seq<JobOutcome>) -> bool {
    forall|k: int| 0 <= k < rs.len() ==> (#[trigger] rs[k] matches Ok(c) ==> c.text@.len() > 0)
}

/// A cell with no successful outcome stays empty; one with a successful
/// outcome, where every success carries text, gets text.
pub proof fn lemma_cell_text_empty_iff(rs: Seq<JobOutcome>, i: int, j: int)
    requires
        successes_non_empty(rs),
    ensures
        (cell_text(rs, i, j).len() == 0) <==> !has_success(rs, i, j),
    decreases rs.len(),
{
    if rs.len() > 0 {
        let init = rs.drop_last();
        assert(successes_non_empty(init)) by {
            assert forall|k: int| 0 <= k < init.len() implies (#[trigger] init[k] matches Ok(c)
                ==> c.text@.len() > 0) by {
                assert(init[k] == rs[k]);
            }
        }
        lemma_cell_text_empty_iff(init, i, j);
        let last = rs.last();
        assert(rs[rs.len() - 1] == last);
        if has_success(init, i, j) {
            let k = choose|k: int| 0 <= k < init.len() && (#[trigger] init[k] matches Ok(c) && c.row == i && c.col == j);
            assert(rs[k] == init[k]);
        }
        if has_success(rs, i, j) {
            let k = choose|k: int| 0 <= k < rs.len() && (#[trigger] rs[k] matches Ok(c) && c.row == i && c.col == j);
            if k < rs.len() - 1 {
                assert(init[k] == rs[k]);
            }
        }
    }
}

/// When exactly one job fails and every other job gives text, the table has
/// exactly one empty cell, the failed job's: with `rows` by `cols` cells,
/// no success for `(fi, fj)`, a success for every other cell, and text in
/// every success.
pub proof fn lemma_single_failure(rows: int, cols: int, rs: Seq<JobOutcome>, fi: int, fj: int)
    requires
        0 <= fi < rows,
        0 <= fj < cols,
        successes_non_empty(rs),
        !has_success(rs, fi, fj),
        forall|i: int, j: int|
            0 <= i < rows && 0 <= j < cols && !(i == fi && j == fj) ==> #[trigger] has_success(rs, i, j),
    ensures
        forall|i: int, j: int|
            0 <= i < rows && 0 <= j < cols ==> (#[trigger] cell_text(rs, i, j).len() == 0 <==> (i == fi
                && j == fj)),
{
    assert forall|i: int, j: int| 0 <= i < rows && 0 <= j < cols implies (#[trigger] cell_text(
        rs,
        i,
        j,
    ).len() == 0 <==> (i == fi && j == fj)) by {
        lemma_cell_text_empty_iff(rs, i, j);
    }
}

/// The outcome at `k` in `rs` is a success for the cell `(i, j)`.
pub open spec fn success_at(rs: Seq<JobOutcome>, k: int, i: int, j: int) -> bool {
    rs[k] matches Ok(c) && c.row == i && c.col == j
}

/// No two successful outcomes in `rs` are for the same cell.
pub open spec fn cells_distinct(rs: Seq<JobOutcome>) -> bool {
    forall|k1: int, k2: int, i: int, j: int|
        0 <= k1 < rs.len() && 0 <= k2 < rs.len() && k1 != k2 && #[trigger] success_at(rs, k1, i, j)
            ==> !#[trigger] success_at(rs, k2, i, j)
}

proof fn lemma_text_of_unique(rs: Seq<JobOutcome>, i: int, j: int, k: int)
    requires
        0 <= k < rs.len(),
        success_at(rs, k, i, j),
        forall|m: int| 0 <= m < rs.len() && m != k ==> !#[trigger] success_at(rs, m, i, j),
    ensures
        cell_text(rs, i, j) == rs[k]->Ok_0.text@,
    decreases rs.len(),
{
    if k < rs.len() - 1 {
        let init = rs.drop_last();
        assert(!success_at(rs, rs.len() - 1, i, j));
        assert forall|m: int| 0 <= m < init.len() && m != k implies !#[trigger] success_at(init, m, i, j) by {
            assert(init[m] == rs[m]);
            assert(!success_at(rs, m, i, j));
        }
        assert(init[k] == rs[k]);
        lemma_text_of_unique(init, i, j, k);
    }
}

proof fn lemma_text_of_none(rs: Seq<JobOutcome>, i: int, j: int)
    requires
        forall|m: int| 0 <= m < rs.len() ==> !#[trigger] success_at(rs, m, i, j),
    ensures
        cell_text(rs, i, j) == Seq::<char>::empty(),
    decreases rs.len(),
{
    if rs.len() > 0 {
        let init = rs.drop_last();
        assert(!success_at(rs, rs.len() - 1, i, j));
        assert forall|m: int| 0 <= m < init.len() implies !#[trigger] success_at(init, m, i, j) by {
            assert(init[m] == rs[m]);
            assert(!success_at(rs, m, i, j));
        }
        lemma_text_of_none(init, i, j);
    }
}

/// Where `x` sits at two places of `s`, it counts at least twice.
proof fn lemma_two_places_count(s: Seq<JobOutcome>, k1: int, k2: int)
    requires
        0 <= k1 < s.len(),
        0 <= k2 < s.len(),
        k1 != k2,
        s[k1] == s[k2],
    ensures
        s.to_multiset().count(s[k1]) >= 2,
{
    let x = s[k1];
    let r = s.remove(k1);
    s.to_multiset_ensures();
    r.to_multiset_ensures();
    let idx = if k2 < k1 { k2 } else { k2 - 1 };
    assert(r[idx] == x);
    assert(r.contains(x));
    assert(r.to_multiset() == s.to_multiset().remove(x));
    assert(r.to_multiset().count(x) > 0);
    assert(s.contains(x));
    assert(s.to_multiset().count(x) > 0);
}

/// Where `x` counts at least twice in `s`, it sits at some place other than
/// `k`.
proof fn lemma_other_place(s: Seq<JobOutcome>, k: int) -> (m: int)
    requires
        0 <= k < s.len(),
        s.to_multiset().count(s[k]) >= 2,
    ensures
        0 <= m < s.len(),
        m != k,
        s[m] == s[k],
{
    let x = s[k];
    let r = s.remove(k);
    s.to_multiset_ensures();
    r.to_multiset_ensures();
    assert(r.to_multiset() == s.to_multiset().remove(x));
    assert(r.to_multiset().count(x) >= 1);
    assert(r.contains(x));
    let m2 = choose|m2: int| 0 <= m2 < r.len() && r[m2] == x;
    if m2 < k {
        m2
    } else {
        m2 + 1
    }
}

/// Assembly does not depend on the order in which jobs finish: where no two
/// successes are for the same cell, any reordering of the outcomes gives
/// every cell the same text.
pub proof fn lemma_assembly_order_free(a: Seq<JobOutcome>, b: Seq<JobOutcome>, i: int, j: int)
    requires
        a.to_multiset() == b.to_multiset(),
        cells_distinct(a),
    ensures
        cell_text(a, i, j) == cell_text(b, i, j),
{
    a.to_multiset_ensures();
    b.to_multiset_ensures();
    if exists|k: int| 0 <= k < a.len() && #[trigger] success_at(a, k, i, j) {
        let k = choose|k: int| 0 <= k < a.len() && #[trigger] success_at(a, k, i, j);
        let x = a[k];
        assert(a.contains(x));
        assert(a.to_multiset().count(x) > 0);
        assert(b.to_multiset().count(x) > 0);
        assert(b.contains(x));
        let kb = choose|kb: int| 0 <= kb < b.len() && b[kb] == x;
        assert(success_at(b, kb, i, j));
        assert forall|m: int| 0 <= m < b.len() && m != kb implies !#[trigger] success_at(b, m, i, j) by {
            if success_at(b, m, i, j) {
                let y = b[m];
                if y == x {
                    lemma_two_places_count(b, kb, m);
                    let m2 = lemma_other_place(a, k);
                    assert(success_at(a, m2, i, j));
                } else {
                    assert(b.contains(y));
                    assert(b.to_multiset().count(y) > 0);
                    assert(a.to_multiset().count(y) > 0);
                    assert(a.contains(y));
                    let ma = choose|ma: int| 0 <= ma < a.len() && a[ma] == y;
                    assert(success_at(a, ma, i, j));
                }
            }
        }
        assert forall|m: int| 0 <= m < a.len() && m != k implies !#[trigger] success_at(a, m, i, j) by {
            if success_at(a, m, i, j) {
                assert(success_at(a, k, i, j));
            }
        }
        lemma_text_of_unique(a, i, j, k);
        lemma_text_of_unique(b, i, j, kb);
    } else {
        assert forall|m: int| 0 <= m < b.len() implies !#[trigger] success_at(b, m, i, j) by {
            if success_at(b, m, i, j) {
                let y = b[m];
                assert(b.contains(y));
                assert(b.to_multiset().count(y) > 0);
                assert(a.to_multiset().count(y) > 0);
                assert(a.contains(y));
                let ma = choose|ma: int| 0 <= ma < a.len() && a[ma] == y;
                assert(success_at(a, ma, i, j));
            }
        }
        lemma_text_of_none(a, i, j);
        lemma_text_of_none(b, i, j);
    }
}

/// A `rows` by `cols` table of empty strings.
pub fn empty_table(rows: usize, cols: usize) -> (t: Vec<Vec<String>>)
    ensures
        t@.len() == rows,
        forall|i: int| 0 <= i < rows ==> #[trigger] t@[i]@.len() == cols,
        forall|i: int, j: int| 0 <= i < rows && 0 <= j < cols ==> (#[trigger] t@[i]@[j])@.len() == 0,
{
    let mut t: Vec<Vec<String>> = Vec::new();
    let mut i: usize = 0;
    while i < rows
        invariant
            i <= rows,
            t@.len() == i,
            forall|a: int| 0 <= a < i ==> #[trigger] t@[a]@.len() == cols,
            forall|a: int, b: int| 0 <= a < i && 0 <= b < cols ==> (#[trigger] t@[a]@[b])@.len() == 0,
        decreases rows - i,
    {
        let mut row: Vec<String> = Vec::new();
        let mut j: usize = 0;
        while j < cols
            invariant
                j <= cols,
                row@.len() == j,
                forall|b: int| 0 <= b < j ==> (#[trigger] row@[b])@.len() == 0,
            decreases cols - j,
        {
            row.push(String::new());
            j += 1;
        }
        t.push(row);
        i += 1;
    }
    t
}

/// The `rows` by `cols` table that the outcomes give: each cell holds the
/// text of the last success for it, or stays empty. Outcomes for cells
/// outside the table are ignored.
pub fn assemble(rows: usize, cols: usize, results: &Vec<JobOutcome>) -> (t: Vec<Vec<String>>)
    ensures
        t@.len() == rows,
        forall|i: int| 0 <= i < rows ==> #[trigger] t@[i]@.len() == cols,
        forall|i: int, j: int|
            0 <= i < rows && 0 <= j < cols ==> (#[trigger] t@[i]@[j])@ == cell_text(results@, i, j),
{
    let mut t = empty_table(rows, cols);
    let mut k: usize = 0;
    while k < results.len()
        invariant
            k <= results.len(),
            t@.len() == rows,
            forall|i: int| 0 <= i < rows ==> #[trigger] t@[i]@.len() == cols,
            forall|i: int, j: int|
                0 <= i < rows && 0 <= j < cols ==> (#[trigger] t@[i]@[j])@ == cell_text(
                    results@.subrange(0, k as int),
                    i,
                    j,
                ),
        decreases results.len() - k,
    {
        let ghost before = t@;
        let ghost pre = results@.subrange(0, k as int);
        let ghost cur = results@.subrange(0, k + 1);
        assert(cur.drop_last() =~= pre);
        assert(cur.last() == results@[k as int]);
        match &results[k] {
            Ok(c) => {
                if c.row < rows && c.col < cols {
                    t[c.row].set(c.col, c.text.clone());
                    assert forall|i: int, j: int| 0 <= i < rows && 0 <= j < cols implies (
                    #[trigger] t@[i]@[j])@ == cell_text(cur, i, j) by {
                        if i == c.row && j == c.col {
                        } else {
                            assert(t@[i]@[j] == before[i]@[j]);
                        }
                    }
                }
            },
            Err(_) => {},
        }
        k += 1;
    }
    assert(results@.subrange(0, results.len() as int) =~= results@);
    t
}

/// `s` between double quotes.
pub open spec fn quoted(s: Seq<char>) -> Seq<char> {
    seq!['"'] + s + seq!['"']
}

/// `parts` with `sep` between each two.
pub open spec fn joined(parts: Seq<Seq<char>>, sep: Seq<char>) -> Seq<char>
    decreases parts.len(),
{
    if parts.len() == 0 {
        Seq::empty()
    } else if parts.len() == 1 {
        parts[0]
    } else {
        joined(parts.drop_last(), sep) + sep + parts.last()
    }
}

/// One line of delimited text: each field quoted, fields joined by `", "`.
pub open spec fn csv_line(row: Seq<Seq<char>>) -> Seq<char> {
    joined(row.map_values(|f: Seq<char>| quoted(f)), ", "@)
}

/// The delimited text of a table: its lines joined by newlines.
pub open spec fn csv_text(rows: Seq<Seq<Seq<char>>>) -> Seq<char> {
    joined(rows.map_values(|r: Seq<Seq<char>>| csv_line(r)), "\n"@)
}

/// Relies on `Itertools::join`, re-exported by iter_tools: the items'
/// text, with `sep` between each two.
#[verifier::external_body]
fn join_with(items: &Vec<String>, sep: &str) -> (r: String)
    ensures
        r@ == joined(views(items@), sep@),
{
    items.iter().join(sep)
}

/// `s` between double quotes.
pub fn quote(s: &str) -> (r: String)
    ensures
        r@ == quoted(s@),
{
    let q = "\"";
    proof {
        reveal_strlit("\"");
    }
    String::from_str(q).concat(s).concat(q)
}

/// A table of recognised text.
#[derive(Clone, Debug)]
pub struct TableEdit {
    pub items: Vec<Vec<String>>,
}

impl TableEdit {
    /// The characters of each field, row by row.
    pub open spec fn cells(&self) -> Seq<Seq<Seq<char>>> {
        self.items@.map_values(|row: Vec<String>| views(row@))
    }

    /// The table as delimited text: every field between double quotes, with
    /// no escaping inside; fields joined by `", "`, rows by newlines.
    pub fn csv(&self) -> (r: String)
        ensures
            r@ == csv_text(self.cells()),
    {
        let mut lines: Vec<String> = Vec::new();
        let mut i: usize = 0;
        while i < self.items.len()
            invariant
                i <= self.items.len(),
                lines@.len() == i,
                forall|a: int| 0 <= a < i ==> (#[trigger] lines@[a])@ == csv_line(self.cells()[a]),
            decreases self.items.len() - i,
        {
            let row = &self.items[i];
            let mut fields: Vec<String> = Vec::new();
            let mut j: usize = 0;
            while j < row.len()
                invariant
                    j <= row.len(),
                    fields@.len() == j,
                    forall|b: int| 0 <= b < j ==> (#[trigger] fields@[b])@ == quoted(row@[b]@),
                decreases row.len() - j,
            {
                fields.push(quote(row[j].as_str()));
                j += 1;
            }
            let line = join_with(&fields, ", ");
            assert(views(fields@) =~= self.cells()[i as int].map_values(|f: Seq<char>| quoted(f)));
            lines.push(line);
            i += 1;
        }
        assert(views(lines@) =~= self.cells().map_values(|r: Seq<Seq<char>>| csv_line(r)));
        join_with(&lines, "\n")
    }
}

} // verus!

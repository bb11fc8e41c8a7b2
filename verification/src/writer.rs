//! Best-effort table layout: nested frames that measure cell text and
//! fit rows and tables around it. Widths saturate rather than overflow;
//! a vault table never comes near those sizes.

use vstd::prelude::*;

verus! {

/// The saturating sum of a pair of extents with another.
pub open spec fn spec_extent_sum(a: (usize, usize), b: (usize, usize)) -> (usize, usize) {
    (
        if a.0 + b.0 > usize::MAX {
            usize::MAX
        } else {
            (a.0 + b.0) as usize
        },
        if a.1 + b.1 > usize::MAX {
            usize::MAX
        } else {
            (a.1 + b.1) as usize
        },
    )
}

/// A layout box: a content extent plus a border extent, each as
/// (width, height).
#[derive(Clone, Copy, Debug, PartialEq, Eq)]
pub struct Frame {
    pub content: (usize, usize),
    pub border: (usize, usize),
}

impl Frame {
    /// The outer extent: content plus border, saturating.
    pub fn outer(&self) -> (r: (usize, usize))
        ensures
            r == spec_extent_sum(self.content, self.border),
    {
        (self.content.0.saturating_add(self.border.0), self.content.1.saturating_add(
            self.border.1,
        ))
    }
}

/// One line of cell text with its measured box.
#[derive(Debug)]
pub struct TextFrame {
    pub frame: Frame,
    pub text: String,
}

impl TextFrame {
    /// Wrap a line of text, not yet measured.
    pub fn new(text: String) -> (r: Self)
        ensures
            r.text@ == text@,
            r.frame == (Frame { content: (0usize, 0usize), border: (0usize, 0usize) }),
    {
        TextFrame { frame: Frame { content: (0, 0), border: (0, 0) }, text }
    }

    /// Measure: one line high, as wide as the text has characters.
    pub fn fit(&mut self)
        requires
            old(self).text@.len() <= usize::MAX,
        ensures
            final(self).text@ == old(self).text@,
            final(self).frame.border == old(self).frame.border,
            final(self).frame.content == ((old(self).text@.len() as usize, 1usize)),
    {
        let w = self.text.as_str().unicode_len();
        self.frame.content = (w, 1);
    }
}

/// The fold that fits a cell around its lines: widths add, heights take
/// the maximum, over each line's outer extent.
pub open spec fn spec_cell_fit(lines: Seq<TextFrame>) -> (usize, usize)
    decreases lines.len(),
{
    if lines.len() == 0 {
        (0usize, 0usize)
    } else {
        let rest = spec_cell_fit(lines.drop_last());
        let last = spec_extent_sum(lines.last().frame.content, lines.last().frame.border);
        (
            if rest.0 + last.0 > usize::MAX {
                usize::MAX
            } else {
                (rest.0 + last.0) as usize
            },
            if rest.1 >= last.1 {
                rest.1
            } else {
                last.1
            },
        )
    }
}

/// One table cell: its box and its lines of text.
#[derive(Debug)]
pub struct TableCellFrame {
    pub frame: Frame,
    pub children: Vec<TextFrame>,
}

impl TableCellFrame {
    /// Wrap a cell's rendered lines, not yet measured.
    pub fn new(lines: Vec<TextFrame>) -> (r: Self)
        ensures
            r.children@ == lines@,
            r.frame == (Frame { content: (0usize, 0usize), border: (0usize, 0usize) }),
    {
        TableCellFrame { frame: Frame { content: (0, 0), border: (0, 0) }, children: lines }
    }

    /// Fit the cell around its lines: their widths added, their tallest
    /// height.
    pub fn fit(&mut self)
        ensures
            final(self).children@ == old(self).children@,
            final(self).frame.border == old(self).frame.border,
            final(self).frame.content == spec_cell_fit(old(self).children@),
    {
        let mut w: usize = 0;
        let mut hgt: usize = 0;
        let n = self.children.len();
        let mut k: usize = 0;
        proof {
            assert(self.children@.take(0) =~= Seq::<TextFrame>::empty());
        }
        while k < n
            invariant
                k <= n,
                n == self.children@.len(),
                (w, hgt) == spec_cell_fit(self.children@.take(k as int)),
            decreases n - k,
        {
            let o = self.children[k].frame.outer();
            proof {
                assert(self.children@.take(k + 1).drop_last() =~= self.children@.take(k as int));
                assert(self.children@.take(k + 1).last() == self.children@[k as int]);
            }
            w = w.saturating_add(o.0);
            hgt = if hgt >= o.1 {
                hgt
            } else {
                o.1
            };
            k = k + 1;
        }
        proof {
            assert(self.children@.take(n as int) =~= self.children@);
        }
        self.frame.content = (w, hgt);
    }
}

/// The fold that lays a row out around its cells: widths add, heights
/// take the maximum, over each cell's outer extent.
pub open spec fn spec_row_fit(cells: Seq<TableCellFrame>) -> (usize, usize)
    decreases cells.len(),
{
    if cells.len() == 0 {
        (0usize, 0usize)
    } else {
        let rest = spec_row_fit(cells.drop_last());
        let last = spec_extent_sum(cells.last().frame.content, cells.last().frame.border);
        (
            if rest.0 + last.0 > usize::MAX {
                usize::MAX
            } else {
                (rest.0 + last.0) as usize
            },
            if rest.1 >= last.1 {
                rest.1
            } else {
                last.1
            },
        )
    }
}

/// One table row: its box and its cells.
#[derive(Debug)]
pub struct TableRowFrame {
    pub frame: Frame,
    pub children: Vec<TableCellFrame>,
}

impl TableRowFrame {
    /// Wrap a row's cells, not yet laid out.
    pub fn new(cells: Vec<TableCellFrame>) -> (r: Self)
        ensures
            r.children@ == cells@,
            r.frame == (Frame { content: (0usize, 0usize), border: (0usize, 0usize) }),
    {
        TableRowFrame { frame: Frame { content: (0, 0), border: (0, 0) }, children: cells }
    }

    /// Lay the row out around its cells: their widths added, their
    /// tallest height.
    pub fn layout(&mut self)
        ensures
            final(self).children@ == old(self).children@,
            final(self).frame.border == old(self).frame.border,
            final(self).frame.content == spec_row_fit(old(self).children@),
    {
        let mut w: usize = 0;
        let mut hgt: usize = 0;
        let n = self.children.len();
        let mut k: usize = 0;
        proof {
            assert(self.children@.take(0) =~= Seq::<TableCellFrame>::empty());
        }
        while k < n
            invariant
                k <= n,
                n == self.children@.len(),
                (w, hgt) == spec_row_fit(self.children@.take(k as int)),
            decreases n - k,
        {
            let o = self.children[k].frame.outer();
            proof {
                assert(self.children@.take(k + 1).drop_last() =~= self.children@.take(k as int));
                assert(self.children@.take(k + 1).last() == self.children@[k as int]);
            }
            w = w.saturating_add(o.0);
            hgt = if hgt >= o.1 {
                hgt
            } else {
                o.1
            };
            k = k + 1;
        }
        proof {
            assert(self.children@.take(n as int) =~= self.children@);
        }
        self.frame.content = (w, hgt);
    }
}

/// The widths of column `col`: for every row that reaches that column,
/// in top-to-bottom row order, the content width of its cell there.
pub open spec fn spec_column_widths(rows: Seq<TableRowFrame>, col: int) -> Seq<usize>
    decreases rows.len(),
{
    if rows.len() == 0 {
        Seq::empty()
    } else {
        let rest = spec_column_widths(rows.drop_last(), col);
        if 0 <= col < rows.last().children@.len() {
            rest.push(rows.last().children@[col].frame.content.0)
        } else {
            rest
        }
    }
}

/// The widest row of a table: the column count.
pub open spec fn spec_column_count(rows: Seq<TableRowFrame>) -> int
    decreases rows.len(),
{
    if rows.len() == 0 {
        0
    } else {
        let rest = spec_column_count(rows.drop_last());
        if rows.last().children@.len() > rest {
            rows.last().children@.len() as int
        } else {
            rest
        }
    }
}

/// A whole table: its box and its rows.
#[derive(Debug)]
pub struct TableFrame {
    pub frame: Frame,
    pub children: Vec<TableRowFrame>,
}

impl TableFrame {
    /// Wrap a table's rows, not yet laid out.
    pub fn new(rows: Vec<TableRowFrame>) -> (r: Self)
        ensures
            r.children@ == rows@,
            r.frame == (Frame { content: (0usize, 0usize), border: (0usize, 0usize) }),
    {
        TableFrame { frame: Frame { content: (0, 0), border: (0, 0) }, children: rows }
    }

    /// The table's shape: its row count, and the cell count of its
    /// widest row.
    pub fn dimensions(&self) -> (r: (usize, usize))
        ensures
            r.0 == self.children@.len(),
            r.1 == spec_column_count(self.children@),
    {
        let rows = self.children.len();
        let mut cols: usize = 0;
        let mut k: usize = 0;
        proof {
            assert(self.children@.take(0) =~= Seq::<TableRowFrame>::empty());
        }
        while k < rows
            invariant
                k <= rows,
                rows == self.children@.len(),
                cols == spec_column_count(self.children@.take(k as int)),
            decreases rows - k,
        {
            let c = self.children[k].children.len();
            proof {
                assert(self.children@.take(k + 1).drop_last() =~= self.children@.take(k as int));
                assert(self.children@.take(k + 1).last() == self.children@[k as int]);
            }
            if c > cols {
                cols = c;
            }
            k = k + 1;
        }
        proof {
            assert(self.children@.take(rows as int) =~= self.children@);
        }
        (rows, cols)
    }

    /// The cells of the table regrouped by column: for each column, the
    /// content widths of the cells of every row that reaches it, in
    /// top-to-bottom row order.
    pub fn iter_columns(&self) -> (r: Vec<Vec<usize>>)
        ensures
            r@.len() == spec_column_count(self.children@),
            forall|j: int|
                0 <= j < r@.len() ==> (#[trigger] r@[j])@ == spec_column_widths(self.children@, j),
    {
        let (_, cols) = self.dimensions();
        let mut out: Vec<Vec<usize>> = Vec::new();
        let mut c: usize = 0;
        while c < cols
            invariant
                c <= cols,
                out@.len() == c,
                cols == spec_column_count(self.children@),
                forall|j: int|
                    0 <= j < c ==> (#[trigger] out@[j])@ == spec_column_widths(
                        self.children@,
                        j,
                    ),
            decreases cols - c,
        {
            out.push(self.column_widths(c));
            c = c + 1;
        }
        out
    }

    /// The widths of one column's cells, for every row that reaches that
    /// column, in top-to-bottom row order.
    fn column_widths(&self, col: usize) -> (r: Vec<usize>)
        ensures
            r@ == spec_column_widths(self.children@, col as int),
    {
        let mut out: Vec<usize> = Vec::new();
        let n = self.children.len();
        let mut k: usize = 0;
        proof {
            assert(self.children@.take(0) =~= Seq::<TableRowFrame>::empty());
        }
        while k < n
            invariant
                k <= n,
                n == self.children@.len(),
                out@ == spec_column_widths(self.children@.take(k as int), col as int),
            decreases n - k,
        {
            let row = &self.children[k];
            proof {
                assert(self.children@.take(k + 1).drop_last() =~= self.children@.take(k as int));
                assert(self.children@.take(k + 1).last() == self.children@[k as int]);
            }
            if col < row.children.len() {
                out.push(row.children[col].frame.content.0);
            }
            k = k + 1;
        }
        proof {
            assert(self.children@.take(n as int) =~= self.children@);
        }
        out
    }

    /// Lay the table out: lay out every row around its own cells,
    /// leaving each row's cells and borders as they were.
    pub fn layout(&mut self)
        ensures
            final(self).children@.len() == old(self).children@.len(),
            forall|i: int|
                0 <= i < final(self).children@.len() ==> {
                    let was = old(self).children@[i];
                    let now = #[trigger] final(self).children@[i];
                    &&& now.children@ == was.children@
                    &&& now.frame.border == was.frame.border
                    &&& now.frame.content == spec_row_fit(was.children@)
                },
    {
        let n = self.children.len();
        let mut k: usize = 0;
        while k < n
            invariant
                k <= n,
                n == self.children@.len(),
                forall|i: int|
                    0 <= i < n - k ==> #[trigger] self.children@[i] == old(self).children@[k + i],
                forall|j: int|
                    0 <= j < k ==> {
                        let was = old(self).children@[j];
                        let now = #[trigger] self.children@[n - k + j];
                        &&& now.children@ == was.children@
                        &&& now.frame.border == was.frame.border
                        &&& now.frame.content == spec_row_fit(was.children@)
                    },
            decreases n - k,
        {
            let ghost pre = self.children@;
            let mut row = self.children.remove(0);
            let ghost taken = row;
            row.layout();
            self.children.push(row);
            proof {
                assert(taken == pre[0]);
                assert(pre[0] == old(self).children@[k as int]);
                let laid = self.children@.last();
                assert(laid.children@ == taken.children@);
                assert(self.children@ =~= pre.drop_first().push(laid));
                assert forall|i: int|
                    0 <= i < n - (k + 1) implies #[trigger] self.children@[i] == old(
                    self,
                ).children@[k + 1 + i] by {
                    assert(self.children@[i] == pre.drop_first()[i]);
                    assert(pre.drop_first()[i] == pre[i + 1]);
                    assert(pre[i + 1] == old(self).children@[k + (i + 1)]);
                }
                assert forall|j: int|
                    0 <= j < k + 1 implies {
                    let was = old(self).children@[j];
                    let now = #[trigger] self.children@[n - (k + 1) + j];
                    &&& now.children@ == was.children@
                    &&& now.frame.border == was.frame.border
                    &&& now.frame.content == spec_row_fit(was.children@)
                } by {
                    if j < k {
                        assert(self.children@[n - (k + 1) + j] == pre.drop_first()[n - k - 1 + j]);
                        assert(pre.drop_first()[n - k - 1 + j] == pre[n - k + j]);
                    } else {
                        assert(self.children@[n - (k + 1) + j] == laid);
                    }
                }
            }
            k = k + 1;
        }
        proof {
            assert(k == n);
            assert forall|i: int|
                0 <= i < n implies {
                let was = old(self).children@[i];
                let now = #[trigger] self.children@[i];
                &&& now.children@ == was.children@
                &&& now.frame.border == was.frame.border
                &&& now.frame.content == spec_row_fit(was.children@)
            } by {
                assert(self.children@[n - k + i] == self.children@[i]);
            }
        }
    }
}

} // verus!

use vstd::prelude::*;

verus! {

/// What a cell shows: its text and its highlight id (0 is the default highlight).
pub type CellView = (Seq<char>, u64);

/// One character position of a grid.
pub struct Cell {
    pub text: String,
    pub hl: u64,
}

impl View for Cell {
    type V = CellView;

    open spec fn view(&self) -> CellView {
        (self.text@, self.hl)
    }
}

impl Cell {
    pub fn blank() -> (r: Cell)
        ensures
            r@ == blank_cell(),
    {
        Cell { text: String::new(), hl: 0 }
    }

    pub fn copy(&self) -> (r: Cell)
        ensures
            r@ == self@,
    {
        Cell { text: self.text.clone(), hl: self.hl }
    }
}

/// One run-length entry of a line update: `repeat` cells showing `text`; with no
/// highlight id, the one of the previous entry of the same update holds.
pub struct LineCell {
    pub text: String,
    pub hl: Option<u64>,
    pub repeat: u64,
}

pub type LineCellView = (Seq<char>, Option<u64>, u64);

impl View for LineCell {
    type V = LineCellView;

    open spec fn view(&self) -> LineCellView {
        (self.text@, self.hl, self.repeat)
    }
}

pub open spec fn blank_cell() -> CellView {
    (Seq::<char>::empty(), 0u64)
}

pub open spec fn blank_row(width: nat) -> Seq<CellView> {
    Seq::new(width, |c: int| blank_cell())
}

pub open spec fn cells_view(s: Seq<Cell>) -> Seq<CellView> {
    s.map_values(|c: Cell| c@)
}

pub open spec fn line_view(s: Seq<LineCell>) -> Seq<LineCellView> {
    s.map_values(|c: LineCell| c@)
}

/// The cells that a line update describes, each run expanded, starting from
/// highlight id `hl`.
pub open spec fn expand(cells: Seq<LineCellView>, hl: u64) -> Seq<CellView>
    decreases cells.len(),
{
    if cells.len() == 0 {
        Seq::empty()
    } else {
        let h = match cells[0].1 {
            Some(x) => x,
            None => hl,
        };
        Seq::new(cells[0].2 as nat, |k: int| (cells[0].0, h)) + expand(cells.drop_first(), h)
    }
}

/// `row` with `cells` written over it from column `col` on.
pub open spec fn overlay(row: Seq<CellView>, col: int, cells: Seq<CellView>) -> Seq<CellView> {
    Seq::new(
        row.len(),
        |c: int|
            if col <= c < col + cells.len() {
                cells[c - col]
            } else {
                row[c]
            },
    )
}

pub ghost struct GridView {
    pub width: nat,
    pub height: nat,
    pub rows: Seq<Seq<CellView>>,
}

/// The cells of a grid after a scroll of the region `[top, bot) x [left, right)`
/// by `n` rows: a row of the region takes the content of the row `n` below it
/// when that row lies in the region, and is blank otherwise.
pub open spec fn scrolled(
    rows: Seq<Seq<CellView>>,
    top: int,
    bot: int,
    left: int,
    right: int,
    n: int,
) -> Seq<Seq<CellView>> {
    Seq::new(
        rows.len(),
        |r: int|
            if top <= r < bot {
                Seq::new(
                    rows[r].len(),
                    |c: int|
                        if left <= c < right {
                            if top <= r + n < bot {
                                rows[r + n][c]
                            } else {
                                blank_cell()
                            }
                        } else {
                            rows[r][c]
                        },
                )
            } else {
                rows[r]
            },
    )
}

/// The cells of a grid reallocated to `width` x `height`: what lay inside both
/// the old and the new bounds stays, the rest is blank.
pub open spec fn resized(rows: Seq<Seq<CellView>>, width: nat, height: nat) -> Seq<Seq<CellView>> {
    Seq::new(
        height,
        |r: int|
            Seq::new(
                width,
                |c: int|
                    if r < rows.len() && c < rows[r].len() {
                        rows[r][c]
                    } else {
                        blank_cell()
                    },
            ),
    )
}

pub open spec fn blank_rows(width: nat, height: nat) -> Seq<Seq<CellView>> {
    Seq::new(height, |r: int| blank_row(width))
}

/// A rectangular array of cells, stored row by row.
pub struct Grid {
    pub width: usize,
    pub height: usize,
    pub rows: Vec<Vec<Cell>>,
}

impl View for Grid {
    type V = GridView;

    open spec fn view(&self) -> GridView {
        GridView {
            width: self.width as nat,
            height: self.height as nat,
            rows: rows_view(self.rows@),
        }
    }
}

impl GridView {
    /// Every row holds exactly `width` cells.
    pub open spec fn wf(self) -> bool {
        &&& self.rows.len() == self.height
        &&& forall|r: int| 0 <= r < self.rows.len() ==> #[trigger] self.rows[r].len() == self.width
    }
}


/// Expands the run-length entries of a line update into cells.
pub fn expand_line(cells: &Vec<LineCell>) -> (r: Vec<Cell>)
    ensures
        cells_view(r@) == expand(line_view(cells@), 0),
{
    let ghost all = line_view(cells@);
    let mut out: Vec<Cell> = Vec::new();
    let mut cur: u64 = 0;
    let mut i: usize = 0;
    assert(all.subrange(0, all.len() as int) =~= all);
    assert(cells_view(out@) =~= Seq::<CellView>::empty());
    assert(cells_view(out@) + expand(all, 0) =~= expand(all, 0));
    while i < cells.len()
        invariant
            0 <= i <= cells@.len(),
            all == line_view(cells@),
            cells_view(out@) + expand(all.subrange(i as int, all.len() as int), cur) == expand(all, 0),
        decreases cells@.len() - i,
    {
        let entry = &cells[i];
        let h: u64 = match entry.hl {
            Some(x) => x,
            None => cur,
        };
        let ghost rest = all.subrange(i as int, all.len() as int);
        let ghost base = cells_view(out@);
        assert(rest.drop_first() =~= all.subrange(i + 1, all.len() as int));
        let mut k: u64 = 0;
        while k < entry.repeat
            invariant
                0 <= k <= entry.repeat,
                cells_view(out@) =~= base + Seq::new(k as nat, |j: int| (entry.text@, h)),
            decreases entry.repeat - k,
        {
            let ghost prev = out@;
            let cell = Cell { text: entry.text.clone(), hl: h };
            assert(cell@ == (entry.text@, h));
            out.push(cell);
            assert(out@ == prev.push(cell));
            assert(cells_view(out@) =~= cells_view(prev).push(cell@));
            k = k + 1;
            assert(cells_view(out@) =~= base + Seq::new(k as nat, |j: int| (entry.text@, h)));
        }
        assert(expand(rest, cur) == Seq::new(entry.repeat as nat, |j: int| (entry.text@, h))
            + expand(rest.drop_first(), h));
        let ghost run = Seq::new(entry.repeat as nat, |j: int| (entry.text@, h));
        assert((base + run) + expand(rest.drop_first(), h) =~= base + (run + expand(rest.drop_first(), h)));
        cur = h;
        i = i + 1;
    }
    assert(all.subrange(i as int, all.len() as int) =~= Seq::<LineCellView>::empty());
    assert(cells_view(out@) =~= cells_view(out@) + Seq::<CellView>::empty());
    out
}


proof fn lemma_cells_view_push(s: Seq<Cell>, c: Cell)
    ensures
        cells_view(s.push(c)) == cells_view(s).push(c@),
{
    assert(cells_view(s.push(c)) =~= cells_view(s).push(c@));
}

pub open spec fn rows_view(s: Seq<Vec<Cell>>) -> Seq<Seq<CellView>> {
    s.map_values(|row: Vec<Cell>| cells_view(row@))
}

proof fn lemma_rows_view_push(s: Seq<Vec<Cell>>, row: Vec<Cell>)
    ensures
        rows_view(s.push(row)) == rows_view(s).push(cells_view(row@)),
{
    assert(rows_view(s.push(row)) =~= rows_view(s).push(cells_view(row@)));
}

fn blank_row_vec(width: usize) -> (r: Vec<Cell>)
    ensures
        cells_view(r@) == blank_row(width as nat),
{
    let mut out: Vec<Cell> = Vec::new();
    let mut c: usize = 0;
    while c < width
        invariant
            c <= width,
            cells_view(out@) =~= blank_row(c as nat),
        decreases width - c,
    {
        let cell = Cell::blank();
        proof { lemma_cells_view_push(out@, cell); }
        out.push(cell);
        c = c + 1;
        assert(cells_view(out@) =~= blank_row(c as nat));
    }
    out
}

impl Grid {
    /// A blank grid of `width` x `height` cells.
    pub fn new(width: usize, height: usize) -> (g: Grid)
        ensures
            g@.wf(),
            g@.width == width,
            g@.height == height,
            g@.rows == blank_rows(width as nat, height as nat),
    {
        let mut rows: Vec<Vec<Cell>> = Vec::new();
        let mut r: usize = 0;
        while r < height
            invariant
                r <= height,
                rows_view(rows@) =~= blank_rows(width as nat, r as nat),
            decreases height - r,
        {
            let row = blank_row_vec(width);
            proof { lemma_rows_view_push(rows@, row); }
            rows.push(row);
            r = r + 1;
            assert(rows_view(rows@) =~= blank_rows(width as nat, r as nat));
        }
        Grid { width, height, rows }
    }

    /// Resets every cell to empty text with the default highlight.
    pub fn clear(&mut self)
        ensures
            final(self)@.wf(),
            final(self)@.width == old(self)@.width,
            final(self)@.height == old(self)@.height,
            final(self)@.rows == blank_rows(old(self)@.width, old(self)@.height),
    {
        *self = Grid::new(self.width, self.height);
    }

    /// Shifts the region `[top, bot) x [left, right)` by `n` rows (content moves
    /// up for a positive `n`), filling vacated rows with blank cells. Returns
    /// `false`, and leaves the grid as it was, when the region is not inside the grid.
    pub fn scroll(&mut self, top: u64, bot: u64, left: u64, right: u64, n: i64) -> (ok: bool)
        requires
            old(self)@.wf(),
        ensures
            final(self)@.wf(),
            ok == (top <= bot <= old(self)@.height && left <= right <= old(self)@.width),
            ok ==> final(self)@ == (GridView {
                rows: scrolled(old(self)@.rows, top as int, bot as int, left as int, right as int, n as int),
                ..old(self)@
            }),
            !ok ==> final(self)@ == old(self)@,
    {
        if !(top <= bot && bot <= self.height as u64 && left <= right && right <= self.width as u64) {
            return false;
        }
        let ghost old_rows = self@.rows;
        let ghost target = scrolled(old_rows, top as int, bot as int, left as int, right as int, n as int);
        let mut rows: Vec<Vec<Cell>> = Vec::new();
        let mut r: usize = 0;
        while r < self.height
            invariant
                self@.wf(),
                old_rows == self@.rows,
                target == scrolled(old_rows, top as int, bot as int, left as int, right as int, n as int),
                top <= bot <= self.height,
                left <= right <= self.width,
                r <= self.height,
                rows_view(rows@) =~= target.subrange(0, r as int),
            decreases self.height - r,
        {
            let mut row: Vec<Cell> = Vec::new();
            let mut c: usize = 0;
            let src: i128 = r as i128 + n as i128;
            while c < self.width
                invariant
                    self@.wf(),
                    old_rows == self@.rows,
                    target == scrolled(old_rows, top as int, bot as int, left as int, right as int, n as int),
                    top <= bot <= self.height,
                    left <= right <= self.width,
                    r < self.height,
                    c <= self.width,
                    src == r + n,
                    cells_view(row@) =~= target[r as int].subrange(0, c as int),
                decreases self.width - c,
            {
                let in_region = top as u128 <= r as u128 && (r as u128) < bot as u128
                    && left as u128 <= c as u128 && (c as u128) < right as u128;
                let cell = if in_region {
                    if top as i128 <= src && src < bot as i128 {
                        assert(self@.rows[src as int].len() == self.width);
                        assert(self.rows@[src as int]@.len() == self@.rows[src as int].len());
                        self.rows[src as usize][c].copy()
                    } else {
                        Cell::blank()
                    }
                } else {
                    assert(self@.rows[r as int].len() == self.width);
                    assert(self.rows@[r as int]@.len() == self@.rows[r as int].len());
                    self.rows[r][c].copy()
                };
                proof { lemma_cells_view_push(row@, cell); }
                row.push(cell);
                c = c + 1;
                assert(cells_view(row@) =~= target[r as int].subrange(0, c as int));
            }
            assert(cells_view(row@) =~= target[r as int]);
            proof { lemma_rows_view_push(rows@, row); }
            rows.push(row);
            r = r + 1;
            assert(rows_view(rows@) =~= target.subrange(0, r as int));
        }
        assert(rows_view(rows@) =~= target);
        self.rows = rows;
        true
    }

    /// Reallocates the grid to `width` x `height` cells; what lies inside both
    /// the old and the new bounds is kept, every other cell is blank.
    pub fn resize(&mut self, width: usize, height: usize)
        requires
            old(self)@.wf(),
        ensures
            final(self)@.wf(),
            final(self)@ == (GridView {
                width: width as nat,
                height: height as nat,
                rows: resized(old(self)@.rows, width as nat, height as nat),
            }),
    {
        let ghost old_rows = self@.rows;
        let ghost target = resized(old_rows, width as nat, height as nat);
        let mut rows: Vec<Vec<Cell>> = Vec::new();
        let mut r: usize = 0;
        while r < height
            invariant
                self@.wf(),
                old_rows == self@.rows,
                target == resized(old_rows, width as nat, height as nat),
                r <= height,
                rows_view(rows@) =~= target.subrange(0, r as int),
            decreases height - r,
        {
            let mut row: Vec<Cell> = Vec::new();
            let mut c: usize = 0;
            while c < width
                invariant
                    self@.wf(),
                    old_rows == self@.rows,
                    target == resized(old_rows, width as nat, height as nat),
                    r < height,
                    c <= width,
                    cells_view(row@) =~= target[r as int].subrange(0, c as int),
                decreases width - c,
            {
                let cell = if r < self.height && c < self.width {
                    assert(self@.rows[r as int].len() == self.width);
                    assert(self.rows@[r as int]@.len() == self@.rows[r as int].len());
                    self.rows[r][c].copy()
                } else {
                    Cell::blank()
                };
                proof { lemma_cells_view_push(row@, cell); }
                row.push(cell);
                c = c + 1;
                assert(cells_view(row@) =~= target[r as int].subrange(0, c as int));
            }
            assert(cells_view(row@) =~= target[r as int]);
            proof { lemma_rows_view_push(rows@, row); }
            rows.push(row);
            r = r + 1;
            assert(rows_view(rows@) =~= target.subrange(0, r as int));
        }
        assert(rows_view(rows@) =~= target);
        *self = Grid { width, height, rows };
    }

    /// Writes the cells of a line update over row `row` from column `col` on.
    /// Returns `false`, and leaves the grid as it was, when the cells do not fit.
    pub fn put_line(&mut self, row: u64, col: u64, cells: &Vec<LineCell>) -> (ok: bool)
        requires
            old(self)@.wf(),
        ensures
            final(self)@.wf(),
            ok == (row < old(self)@.height && col + expand(line_view(cells@), 0).len() <= old(self)@.width),
            ok ==> final(self)@ == (GridView {
                rows: old(self)@.rows.update(
                    row as int,
                    overlay(old(self)@.rows[row as int], col as int, expand(line_view(cells@), 0)),
                ),
                ..old(self)@
            }),
            !ok ==> final(self)@ == old(self)@,
    {
        let exp = expand_line(cells);
        if row >= self.height as u64 || col > self.width as u64 || exp.len() as u64 > self.width as u64 - col {
            return false;
        }
        let r = row as usize;
        let start = col as usize;
        let ghost old_row = cells_view(self.rows@[r as int]@);
        let ghost e = cells_view(exp@);
        let mut new_row: Vec<Cell> = Vec::new();
        let mut c: usize = 0;
        while c < self.width
            invariant
                self@.wf(),
                r < self@.height,
                c <= self.width,
                start + exp@.len() <= self.width,
                old_row == self@.rows[r as int],
                e == cells_view(exp@),
                cells_view(new_row@) =~= overlay(old_row, start as int, e).subrange(0, c as int),
            decreases self.width - c,
        {
            let cell = if start <= c && c < start + exp.len() {
                exp[c - start].copy()
            } else {
                self.rows[r][c].copy()
            };
            proof { lemma_cells_view_push(new_row@, cell); }
            new_row.push(cell);
            c = c + 1;
            assert(cells_view(new_row@) =~= overlay(old_row, start as int, e).subrange(0, c as int));
        }
        assert(cells_view(new_row@) =~= overlay(old_row, start as int, e));
        let ghost before = self.rows@;
        self.rows[r] = new_row;
        assert(self.rows@ == before.update(r as int, new_row));
        assert(rows_view(self.rows@) =~= rows_view(before).update(r as int, overlay(old_row, start as int, e)));
        true
    }
}

} // verus!

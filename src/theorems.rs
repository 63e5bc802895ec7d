use vstd::prelude::*;
use crate::event::{HlAttr, UiEvent};
use crate::grid::{CellView, blank_cell, blank_rows, expand, line_view, overlay};
use crate::screen::{ScreenView, step};
use crate::tick::{after, run, violations, has_flush};
use crate::bridge::batch_occurrences;
use crate::value::Value;

verus! {

/// Defining the same highlight twice leaves the same table as defining it once.
pub proof fn lemma_highlight_define_idempotent(s: ScreenView, id: u64, attrs: HlAttr)
    ensures
        after(after(s, UiEvent::HlAttrDefine { id, attrs }), UiEvent::HlAttrDefine { id, attrs })
            == after(s, UiEvent::HlAttrDefine { id, attrs }),
{
    assert(s.highlights.insert(id, attrs).insert(id, attrs) =~= s.highlights.insert(id, attrs));
}

/// In a batch of two line updates and a flush, the state at the flush holds
/// both updates, applied in order, and the batch asks for a paint.
pub proof fn lemma_flush_follows_prior_updates(s: ScreenView, a: UiEvent, b: UiEvent)
    requires
        a is GridLine,
        b is GridLine,
    ensures
        run(s, seq![a, b, UiEvent::Flush]) == after(after(s, a), b),
        has_flush(seq![a, b, UiEvent::Flush]),
{
    let es = seq![a, b, UiEvent::Flush];
    assert(es.drop_last() =~= seq![a, b]);
    assert(seq![a, b].drop_last() =~= seq![a]);
    assert(seq![a].drop_last() =~= Seq::<UiEvent>::empty());
    assert(es[2] is Flush);
    assert(run(s, Seq::<UiEvent>::empty()) == s);
    assert(run(s, seq![a]) == after(s, a));
    assert(run(s, seq![a, b]) == after(run(s, seq![a]), b));
    assert(run(s, es) == after(run(s, seq![a, b]), UiEvent::Flush));
}

/// A line update of grid `grid` that lies inside `width` x `height`.
pub open spec fn confined_line(e: UiEvent, grid: u64, width: u64, height: u64) -> bool {
    match e {
        UiEvent::GridLine { grid: g, row, col, cells } => {
            g == grid && row < height && col + expand(line_view(cells@), 0).len() <= width
        },
        _ => false,
    }
}

/// The rows that a sequence of line updates paints over `rows`, each update
/// writing its expanded runs from its start column on.
pub open spec fn paint_lines(rows: Seq<Seq<CellView>>, lines: Seq<UiEvent>) -> Seq<Seq<CellView>>
    decreases lines.len(),
{
    if lines.len() == 0 {
        rows
    } else {
        let prev = paint_lines(rows, lines.drop_last());
        match lines.last() {
            UiEvent::GridLine { row, col, cells, .. } => prev.update(
                row as int,
                overlay(prev[row as int], col as int, expand(line_view(cells@), 0)),
            ),
            _ => prev,
        }
    }
}

proof fn lemma_confined_run(s: ScreenView, grid: u64, width: u64, height: u64, lines: Seq<UiEvent>)
    requires
        s.grids.contains_key(grid),
        s.grids[grid].width == width,
        s.grids[grid].height == height,
        forall|i: int| 0 <= i < lines.len() ==> confined_line(#[trigger] lines[i], grid, width, height),
    ensures
        run(s, lines).grids.contains_key(grid),
        run(s, lines).grids[grid].width == width,
        run(s, lines).grids[grid].height == height,
        violations(s, lines) == Seq::<crate::screen::Violation>::empty(),
        run(s, lines).grids[grid].rows == paint_lines(s.grids[grid].rows, lines),
    decreases lines.len(),
{
    if lines.len() > 0 {
        let init = lines.drop_last();
        assert forall|i: int| 0 <= i < init.len() implies confined_line(#[trigger] init[i], grid, width, height) by {
            assert(init[i] == lines[i]);
        }
        lemma_confined_run(s, grid, width, height, init);
        assert(confined_line(lines[lines.len() - 1], grid, width, height));
        assert(violations(s, lines) =~= violations(s, init));
    }
}

/// After a resize to `width` x `height` and a clear, line updates that lie
/// inside the grid never meet a violation.
pub proof fn lemma_confined_lines_never_violate(
    s: ScreenView,
    grid: u64,
    width: u64,
    height: u64,
    lines: Seq<UiEvent>,
)
    requires
        width <= usize::MAX,
        height <= usize::MAX,
        forall|i: int| 0 <= i < lines.len() ==> confined_line(#[trigger] lines[i], grid, width, height),
    ensures
        step(s, UiEvent::GridResize { grid, width, height }) is Ok,
        step(after(s, UiEvent::GridResize { grid, width, height }), UiEvent::GridClear { grid }) is Ok,
        violations(
            after(after(s, UiEvent::GridResize { grid, width, height }), UiEvent::GridClear { grid }),
            lines,
        ) == Seq::<crate::screen::Violation>::empty(),
{
    let s1 = after(after(s, UiEvent::GridResize { grid, width, height }), UiEvent::GridClear { grid });
    lemma_confined_run(s1, grid, width, height, lines);
}

/// Line updates of one grid, applied in order to the cleared grid, leave
/// exactly the cells that the reference painting of their expanded runs gives.
pub proof fn lemma_lines_match_reference(
    s: ScreenView,
    grid: u64,
    width: u64,
    height: u64,
    lines: Seq<UiEvent>,
)
    requires
        s.grids.contains_key(grid),
        s.grids[grid].width == width,
        s.grids[grid].height == height,
        s.grids[grid].rows == blank_rows(width as nat, height as nat),
        forall|i: int| 0 <= i < lines.len() ==> confined_line(#[trigger] lines[i], grid, width, height),
    ensures
        run(s, lines).grids[grid].rows == paint_lines(blank_rows(width as nat, height as nat), lines),
        violations(s, lines) == Seq::<crate::screen::Violation>::empty(),
{
    lemma_confined_run(s, grid, width, height, lines);
}

/// A line update on a cleared grid: the updated row shows the expanded run
/// entries from the start column on, and blank cells everywhere else.
pub proof fn lemma_line_on_cleared_grid(s: ScreenView, e: UiEvent)
    requires
        e is GridLine,
        s.grids.contains_key(e->GridLine_grid),
        s.grids[e->GridLine_grid].rows == blank_rows(
            s.grids[e->GridLine_grid].width,
            s.grids[e->GridLine_grid].height,
        ),
        step(s, e) is Ok,
    ensures
        ({
            let g = e->GridLine_grid;
            let col = e->GridLine_col as int;
            let exp = expand(line_view(e->GridLine_cells@), 0);
            let row = step(s, e)->Ok_0.grids[g].rows[e->GridLine_row as int];
            &&& row.len() == s.grids[g].width
            &&& forall|c: int| col <= c < col + exp.len() ==> #[trigger] row[c] == exp[c - col]
            &&& forall|c: int| 0 <= c < row.len() && !(col <= c < col + exp.len()) ==> #[trigger] row[c] == blank_cell()
        }),
{
}

/// Entries of a batch decode independently: the occurrences of two batches
/// put together are those of the first, then those of the second.
pub proof fn lemma_entries_decode_independently(a: Seq<Value>, b: Seq<Value>)
    ensures
        batch_occurrences(a + b) == batch_occurrences(a) + batch_occurrences(b),
    decreases b.len(),
{
    if b.len() == 0 {
        assert(a + b =~= a);
        assert(batch_occurrences(a) + batch_occurrences(b) =~= batch_occurrences(a));
    } else {
        lemma_entries_decode_independently(a, b.drop_last());
        assert((a + b).drop_last() =~= a + b.drop_last());
        assert((a + b).last() == b.last());
        assert(batch_occurrences(a + b) =~= batch_occurrences(a) + batch_occurrences(b));
    }
}

} // verus!

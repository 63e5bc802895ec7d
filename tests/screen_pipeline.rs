use gnvim::bridge::{decode_batch, handle_notification, Decoded, Diagnostic};
use gnvim::channel::EventChannel;
use gnvim::event::UiEvent;
use gnvim::grid::{Grid, LineCell};
use gnvim::scheduler::RedrawScheduler;
use gnvim::screen::{ScreenState, Violation};
use gnvim::tick::process_pending;
use gnvim::value::Value;

fn s(t: &str) -> Value {
    Value::Str(t.to_string())
}

fn num(i: i64) -> Value {
    Value::Integer(i)
}

fn arr(v: Vec<Value>) -> Value {
    Value::Array(v)
}

fn entry(name: &str, occurrences: Vec<Vec<Value>>) -> Value {
    let mut v = vec![s(name)];
    for o in occurrences {
        v.push(arr(o));
    }
    arr(v)
}

fn row_text(g: &Grid, r: usize) -> Vec<String> {
    g.rows[r].iter().map(|c| c.text.clone()).collect()
}

fn feed(screen: &mut ScreenState, sched: &mut RedrawScheduler, params: Vec<Value>) -> (bool, Vec<Diagnostic>, Vec<Violation>) {
    let mut chan = EventChannel::new();
    let d = handle_notification(&"redraw".to_string(), &params, &mut chan).unwrap();
    let t = process_pending(screen, &mut chan, sched);
    (t.paint, d.diagnostics, t.violations)
}

#[test]
fn redraw_resize_line_flush_scenario() {
    let params = vec![
        entry("grid_resize", vec![vec![num(1), num(5), num(2)]]),
        entry("grid_line", vec![vec![num(1), num(0), num(0), arr(vec![arr(vec![s("a"), num(0)]), arr(vec![s("b"), num(0)])])]]),
        entry("flush", vec![vec![]]),
    ];
    let mut screen = ScreenState::new();
    let mut sched = RedrawScheduler::new();
    let (paint, diags, violations) = feed(&mut screen, &mut sched, params);
    assert!(paint);
    assert!(diags.is_empty());
    assert!(violations.is_empty());
    let g = screen.grids.get(&1).unwrap();
    assert_eq!((g.width, g.height), (5, 2));
    assert_eq!(row_text(g, 0), vec!["a", "b", "", "", ""]);
    assert_eq!(row_text(g, 1), vec!["", "", "", "", ""]);
    assert!(sched.take_pending());
    assert!(!sched.take_pending());
}

#[test]
fn malformed_grid_line_is_dropped_alone() {
    let params = vec![
        entry("grid_resize", vec![vec![num(1), num(3), num(1)]]),
        entry("grid_line", vec![
            vec![num(1)],
            vec![num(1), num(0), num(0), arr(vec![arr(vec![s("z")])])],
        ]),
        entry("flush", vec![vec![]]),
    ];
    let ds = decode_batch(&params);
    assert_eq!(ds.len(), 4);
    assert!(matches!(ds[1], Decoded::Malformed));
    assert!(matches!(ds[2], Decoded::Event(UiEvent::GridLine { .. })));
    let mut screen = ScreenState::new();
    let mut sched = RedrawScheduler::new();
    let (paint, diags, violations) = feed(&mut screen, &mut sched, params);
    assert!(paint);
    assert_eq!(diags, vec![Diagnostic::Malformed(1)]);
    assert!(violations.is_empty());
    assert_eq!(row_text(screen.grids.get(&1).unwrap(), 0), vec!["z", "", ""]);
}

#[test]
fn unknown_sub_event_is_reported_and_skipped() {
    let params = vec![
        entry("win_viewport", vec![vec![num(1)]]),
        entry("grid_resize", vec![vec![num(2), num(1), num(1)]]),
    ];
    let mut screen = ScreenState::new();
    let mut sched = RedrawScheduler::new();
    let (paint, diags, _) = feed(&mut screen, &mut sched, params);
    assert!(!paint);
    assert_eq!(diags, vec![Diagnostic::Unknown(0)]);
    assert!(screen.grids.contains_key(&2));
}

#[test]
fn entry_without_name_is_malformed() {
    let params = vec![arr(vec![num(3)]), num(4)];
    let ds = decode_batch(&params);
    assert_eq!(ds.len(), 2);
    assert!(matches!(ds[0], Decoded::Malformed));
    assert!(matches!(ds[1], Decoded::Malformed));
}

#[test]
fn other_methods_are_not_handled() {
    let mut chan = EventChannel::new();
    let r = handle_notification(&"Gnvim".to_string(), &vec![num(1)], &mut chan);
    assert!(r.is_none());
    assert!(chan.queue.is_empty());
}

#[test]
fn both_updates_are_applied_before_the_flush_paints() {
    let params = vec![
        entry("grid_resize", vec![vec![num(1), num(4), num(2)]]),
        entry("grid_line", vec![
            vec![num(1), num(0), num(0), arr(vec![arr(vec![s("A"), num(1)])])],
            vec![num(1), num(1), num(2), arr(vec![arr(vec![s("B"), num(2)])])],
        ]),
        entry("flush", vec![vec![]]),
    ];
    let mut screen = ScreenState::new();
    let mut sched = RedrawScheduler::new();
    let (paint, _, _) = feed(&mut screen, &mut sched, params);
    assert!(paint);
    let g = screen.grids.get(&1).unwrap();
    assert_eq!(g.rows[0][0].text, "A");
    assert_eq!(g.rows[0][0].hl, 1);
    assert_eq!(g.rows[1][2].text, "B");
    assert_eq!(g.rows[1][2].hl, 2);
}

#[test]
fn flushes_coalesce_into_one_paint() {
    let params = vec![entry("flush", vec![vec![], vec![]]), entry("flush", vec![vec![]])];
    let mut screen = ScreenState::new();
    let mut sched = RedrawScheduler::new();
    let (paint, _, _) = feed(&mut screen, &mut sched, params.clone_values());
    assert!(paint);
    let (again, _, _) = feed(&mut screen, &mut sched, params);
    assert!(!again);
    assert!(sched.take_pending());
}

trait CloneValues {
    fn clone_values(&self) -> Vec<Value>;
}

impl CloneValues for Vec<Value> {
    fn clone_values(&self) -> Vec<Value> {
        self.iter().map(copy_value).collect()
    }
}

fn copy_value(v: &Value) -> Value {
    match v {
        Value::Nil => Value::Nil,
        Value::Boolean(b) => Value::Boolean(*b),
        Value::Integer(i) => Value::Integer(*i),
        Value::Str(t) => Value::Str(t.clone()),
        Value::Binary(b) => Value::Binary(b.clone()),
        Value::Array(a) => Value::Array(a.iter().map(copy_value).collect()),
        Value::Dict(d) => Value::Dict(d.iter().map(|(k, x)| (copy_value(k), copy_value(x))).collect()),
        Value::Ext(t, b) => Value::Ext(*t, b.clone()),
    }
}

#[test]
fn line_update_before_resize_is_a_violation() {
    let mut screen = ScreenState::new();
    let e = UiEvent::GridLine { grid: 7, row: 0, col: 0, cells: vec![LineCell { text: "x".to_string(), hl: None, repeat: 1 }] };
    assert!(matches!(screen.apply(e), Err(Violation::NoSuchGrid(7))));
    assert!(screen.grids.is_empty());
}

#[test]
fn cursor_goto_checks_bounds() {
    let mut screen = ScreenState::new();
    assert!(matches!(screen.apply(UiEvent::GridResize { grid: 1, width: 3, height: 2 }), Ok(false)));
    assert!(matches!(screen.apply(UiEvent::GridCursorGoto { grid: 1, row: 1, col: 2 }), Ok(false)));
    assert_eq!((screen.cursor.grid, screen.cursor.row, screen.cursor.col), (1, 1, 2));
    assert!(matches!(screen.apply(UiEvent::GridCursorGoto { grid: 1, row: 2, col: 0 }), Err(Violation::OutOfBounds)));
    assert_eq!((screen.cursor.row, screen.cursor.col), (1, 2));
}

#[test]
fn line_past_the_right_edge_is_a_violation() {
    let mut screen = ScreenState::new();
    screen.apply(UiEvent::GridResize { grid: 1, width: 3, height: 1 }).unwrap();
    let e = UiEvent::GridLine { grid: 1, row: 0, col: 1, cells: vec![LineCell { text: "x".to_string(), hl: Some(4), repeat: 3 }] };
    assert!(matches!(screen.apply(e), Err(Violation::OutOfBounds)));
    assert_eq!(row_text(screen.grids.get(&1).unwrap(), 0), vec!["", "", ""]);
}

#[test]
fn confined_lines_after_resize_and_clear_never_violate() {
    let mut screen = ScreenState::new();
    screen.apply(UiEvent::GridResize { grid: 1, width: 4, height: 3 }).unwrap();
    screen.apply(UiEvent::GridClear { grid: 1 }).unwrap();
    for r in 0..3u64 {
        for c in 0..4u64 {
            let e = UiEvent::GridLine { grid: 1, row: r, col: c, cells: vec![LineCell { text: "q".to_string(), hl: None, repeat: 4 - c }] };
            assert!(screen.apply(e).is_ok());
        }
    }
}

use gnvim::bridge::{decode_occurrence, Decoded};
use gnvim::channel::EventChannel;
use gnvim::scheduler::RedrawScheduler;
use gnvim::config::attach_options;
use gnvim::event::{HlAttr, UiEvent};
use gnvim::geometry::parse_geometry;
use gnvim::grid::{expand_line, Grid, LineCell};
use gnvim::screen::ScreenState;
use gnvim::value::Value;

fn lc(text: &str, hl: Option<u64>, repeat: u64) -> LineCell {
    LineCell { text: text.to_string(), hl, repeat }
}

fn texts(g: &Grid, r: usize) -> Vec<String> {
    g.rows[r].iter().map(|c| c.text.clone()).collect()
}

fn fill_rows(g: &mut Grid) {
    for r in 0..g.height {
        let label = format!("{}", r);
        let cells = vec![lc(&label, Some(r as u64), g.width as u64)];
        assert!(g.put_line(r as u64, 0, &cells));
    }
}

#[test]
fn scroll_up_one_row_inside_region() {
    let mut g = Grid::new(10, 6);
    fill_rows(&mut g);
    assert!(g.scroll(2, 5, 0, 10, 1));
    assert_eq!(texts(&g, 2), vec!["3"; 10]);
    assert_eq!(texts(&g, 3), vec!["4"; 10]);
    assert_eq!(texts(&g, 4), vec![""; 10]);
    assert!(g.rows[4].iter().all(|c| c.hl == 0));
    assert_eq!(texts(&g, 0), vec!["0"; 10]);
    assert_eq!(texts(&g, 1), vec!["1"; 10]);
    assert_eq!(texts(&g, 5), vec!["5"; 10]);
}

#[test]
fn scroll_keeps_columns_outside_region() {
    let mut g = Grid::new(4, 3);
    fill_rows(&mut g);
    assert!(g.scroll(0, 3, 1, 3, -1));
    assert_eq!(texts(&g, 0), vec!["0", "", "", "0"]);
    assert_eq!(texts(&g, 1), vec!["1", "0", "0", "1"]);
    assert_eq!(texts(&g, 2), vec!["2", "1", "1", "2"]);
}

#[test]
fn scroll_region_outside_grid_is_refused() {
    let mut g = Grid::new(4, 3);
    fill_rows(&mut g);
    assert!(!g.scroll(1, 4, 0, 4, 1));
    assert_eq!(texts(&g, 2), vec!["2"; 4]);
}

#[test]
fn run_length_entries_expand_and_inherit_highlight() {
    let cells = vec![lc("a", Some(3), 2), lc("b", None, 1), lc("c", Some(5), 3), lc(" ", None, 0)];
    let out = expand_line(&cells);
    let shown: Vec<(String, u64)> = out.iter().map(|c| (c.text.clone(), c.hl)).collect();
    let expected: Vec<(String, u64)> = vec![("a", 3), ("a", 3), ("b", 3), ("c", 5), ("c", 5), ("c", 5)]
        .into_iter()
        .map(|(t, h)| (t.to_string(), h))
        .collect();
    assert_eq!(shown, expected);
}

#[test]
fn first_entry_without_highlight_uses_default() {
    let out = expand_line(&vec![lc("x", None, 2)]);
    assert_eq!(out.len(), 2);
    assert!(out.iter().all(|c| c.hl == 0 && c.text == "x"));
}

#[test]
fn put_line_overwrites_only_its_run() {
    let mut g = Grid::new(5, 2);
    assert!(g.put_line(1, 1, &vec![lc("é", Some(2), 2), lc("z", None, 1)]));
    assert_eq!(texts(&g, 1), vec!["", "é", "é", "z", ""]);
    assert_eq!(g.rows[1][3].hl, 2);
    assert_eq!(texts(&g, 0), vec![""; 5]);
    assert!(!g.put_line(2, 0, &vec![lc("x", None, 1)]));
    assert!(!g.put_line(0, 4, &vec![lc("x", None, 2)]));
}

#[test]
fn resize_keeps_retained_rectangle() {
    let mut g = Grid::new(3, 3);
    fill_rows(&mut g);
    g.resize(4, 2);
    assert_eq!((g.width, g.height), (4, 2));
    assert_eq!(texts(&g, 0), vec!["0", "0", "0", ""]);
    assert_eq!(texts(&g, 1), vec!["1", "1", "1", ""]);
    assert_eq!(g.rows.len(), 2);
}

#[test]
fn clear_blanks_every_cell() {
    let mut g = Grid::new(2, 2);
    fill_rows(&mut g);
    g.clear();
    assert!(g.rows.iter().all(|r| r.len() == 2 && r.iter().all(|c| c.text.is_empty() && c.hl == 0)));
}

fn hl_define(id: u64) -> UiEvent {
    UiEvent::HlAttrDefine {
        id,
        attrs: HlAttr {
            foreground: Some(0xff0000),
            background: None,
            special: None,
            reverse: false,
            italic: true,
            bold: false,
            underline: false,
            undercurl: false,
            strikethrough: false,
        },
    }
}

#[test]
fn highlight_define_twice_equals_once() {
    let mut once = ScreenState::new();
    once.apply(hl_define(4)).unwrap();
    let mut twice = ScreenState::new();
    twice.apply(hl_define(4)).unwrap();
    twice.apply(hl_define(4)).unwrap();
    assert_eq!(once.highlights, twice.highlights);
    assert_eq!(twice.highlights.len(), 1);
    assert!(twice.highlights.get(&4).unwrap().italic);
}

#[test]
fn hl_attr_define_decodes_dictionary() {
    let dict = Value::Dict(vec![
        (Value::Str("foreground".to_string()), Value::Integer(255)),
        (Value::Str("bold".to_string()), Value::Boolean(true)),
        (Value::Str("italic".to_string()), Value::Integer(1)),
    ]);
    let d = decode_occurrence(&"hl_attr_define".to_string(), &vec![Value::Integer(9), dict, Value::Nil]);
    match d {
        Decoded::Event(UiEvent::HlAttrDefine { id, attrs }) => {
            assert_eq!(id, 9);
            assert_eq!(attrs.foreground, Some(255));
            assert_eq!(attrs.background, None);
            assert!(attrs.bold);
            assert!(!attrs.italic);
        },
        _ => panic!("expected a highlight definition"),
    }
}

#[test]
fn grid_scroll_decodes_signed_rows() {
    let p: Vec<Value> = vec![1, 0, 5, 0, 8, -2, 0].into_iter().map(Value::Integer).collect();
    match decode_occurrence(&"grid_scroll".to_string(), &p) {
        Decoded::Event(UiEvent::GridScroll { grid, top, bot, left, right, rows, cols }) => {
            assert_eq!((grid, top, bot, left, right, rows, cols), (1, 0, 5, 0, 8, -2, 0));
        },
        _ => panic!("expected a scroll"),
    }
    let bad: Vec<Value> = vec![1, -1, 5, 0, 8, 1, 0].into_iter().map(Value::Integer).collect();
    assert!(matches!(decode_occurrence(&"grid_scroll".to_string(), &bad), Decoded::Malformed));
}

#[test]
fn mode_info_and_widgets_update_state() {
    let mut screen = ScreenState::new();
    let modes = Value::Array(vec![Value::Dict(vec![
        (Value::Str("cursor_shape".to_string()), Value::Str("vertical".to_string())),
        (Value::Str("cell_percentage".to_string()), Value::Integer(25)),
    ])]);
    match decode_occurrence(&"mode_info_set".to_string(), &vec![Value::Boolean(true), modes]) {
        Decoded::Event(e) => {
            screen.apply(e).unwrap();
        },
        _ => panic!("expected mode info"),
    }
    assert_eq!(screen.modes.len(), 1);
    assert_eq!(screen.modes[0].cursor_shape, Some(2));
    assert_eq!(screen.modes[0].cell_percentage, Some(25));
    let words = Value::Array(vec![Value::Str("foo".to_string()), Value::Str("bar".to_string())]);
    match decode_occurrence(&"wildmenu_show".to_string(), &vec![words]) {
        Decoded::Event(e) => {
            screen.apply(e).unwrap();
        },
        _ => panic!("expected wildmenu"),
    }
    screen.apply(UiEvent::WildmenuSelect { selected: 1 }).unwrap();
    let w = screen.wildmenu.as_ref().unwrap();
    assert_eq!(w.candidates, vec!["foo".to_string(), "bar".to_string()]);
    assert_eq!(w.selected, 1);
    screen.apply(UiEvent::WildmenuHide).unwrap();
    assert!(screen.wildmenu.is_none());
    screen.apply(UiEvent::PopupmenuSelect { selected: 0 }).unwrap();
    assert!(screen.popupmenu.is_none());
}

#[test]
fn default_colors_replace_defaults() {
    let mut screen = ScreenState::new();
    let p: Vec<Value> = vec![0xffffff, 0, -1, 0, 0].into_iter().map(Value::Integer).collect();
    match decode_occurrence(&"default_colors_set".to_string(), &p) {
        Decoded::Event(e) => {
            assert!(matches!(screen.apply(e), Ok(false)));
        },
        _ => panic!("expected default colours"),
    }
    assert_eq!((screen.default_fg, screen.default_bg, screen.default_sp), (0xffffff, 0, -1));
}

#[test]
fn geometry_parses_width_and_height() {
    assert_eq!(parse_geometry("1280x720"), Ok((1280, 720)));
    assert_eq!(parse_geometry("-5x+7"), Ok((-5, 7)));
    assert_eq!(parse_geometry("2147483647x-2147483648"), Ok((2147483647, -2147483648)));
}

#[test]
fn geometry_rejects_bad_forms() {
    let form = Err("must be of form 'width'x'height'".to_string());
    let not_int = Err("at least one argument wasn't an integer".to_string());
    assert_eq!(parse_geometry("1280"), form);
    assert_eq!(parse_geometry("1x2x3"), form);
    assert_eq!(parse_geometry("12x"), not_int);
    assert_eq!(parse_geometry("ax5"), not_int);
    assert_eq!(parse_geometry("2147483648x1"), not_int);
    assert_eq!(parse_geometry("+x1"), not_int);
}

#[test]
fn attach_options_follow_flags() {
    let o = attach_options(true, false, true);
    assert!(o.rgb && o.linegrid && o.wildmenu);
    assert!(!o.popupmenu && o.tabline && !o.cmdline);
}

#[test]
fn highlight_zero_resolves_to_default_colours() {
    let mut screen = ScreenState::new();
    screen.apply(UiEvent::DefaultColorsSet { fg: 0x112233, bg: 0x445566, sp: -1 }).unwrap();
    screen.apply(hl_define(3)).unwrap();
    let zero = screen.highlight(0);
    assert_eq!((zero.foreground, zero.background, zero.special), (Some(0x112233), Some(0x445566), None));
    assert!(!zero.italic);
    assert_eq!(screen.highlight(3).foreground, Some(0xff0000));
    assert_eq!(screen.highlight(8).background, Some(0x445566));
}

#[test]
fn scheduler_keeps_one_paint_outstanding() {
    let mut s = RedrawScheduler::new();
    assert!(s.notify_dirty());
    assert!(!s.notify_dirty());
    assert!(s.take_pending());
    assert!(!s.take_pending());
    assert!(s.notify_dirty());
}

#[test]
fn channel_keeps_order_and_wakes_once() {
    let mut c = EventChannel::new();
    assert!(c.send(UiEvent::GridClear { grid: 1 }));
    assert!(!c.send(UiEvent::Flush));
    let drained = c.drain();
    assert_eq!(drained.len(), 2);
    assert!(matches!(drained[0], UiEvent::GridClear { grid: 1 }));
    assert!(matches!(drained[1], UiEvent::Flush));
    assert!(c.queue.is_empty());
    assert!(c.send(UiEvent::Flush));
}

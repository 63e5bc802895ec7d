use vstd::prelude::*;
use crate::value::{Value, spec_entries, spec_ext, value_entries, value_ext, spec_u64, spec_i64, spec_bool, spec_text, spec_items, value_u64, value_i64, value_bool, value_text, value_items, text_is};
use crate::grid::{LineCell, LineCellView};
use crate::channel::EventChannel;
use crate::event::{HlAttr, ModeInfo, PmenuItem, CmdlineChunk, Tab, UiEvent};

verus! {

pub open spec fn arg_u64(p: Seq<Value>, i: int) -> Option<u64> {
    if 0 <= i < p.len() { spec_u64(p[i]) } else { None }
}

pub open spec fn arg_i64(p: Seq<Value>, i: int) -> Option<i64> {
    if 0 <= i < p.len() { spec_i64(p[i]) } else { None }
}

pub open spec fn arg_bool(p: Seq<Value>, i: int) -> Option<bool> {
    if 0 <= i < p.len() { spec_bool(p[i]) } else { None }
}

pub open spec fn arg_text(p: Seq<Value>, i: int) -> Option<Seq<char>> {
    if 0 <= i < p.len() { spec_text(p[i]) } else { None }
}

pub open spec fn arg_items(p: Seq<Value>, i: int) -> Option<Seq<Value>> {
    if 0 <= i < p.len() { spec_items(p[i]) } else { None }
}

fn get_u64(p: &Vec<Value>, i: usize) -> (r: Option<u64>)
    ensures
        r == arg_u64(p@, i as int),
{
    if i < p.len() { value_u64(&p[i]) } else { None }
}

fn get_i64(p: &Vec<Value>, i: usize) -> (r: Option<i64>)
    ensures
        r == arg_i64(p@, i as int),
{
    if i < p.len() { value_i64(&p[i]) } else { None }
}

fn get_bool(p: &Vec<Value>, i: usize) -> (r: Option<bool>)
    ensures
        r == arg_bool(p@, i as int),
{
    if i < p.len() { value_bool(&p[i]) } else { None }
}

fn get_text(p: &Vec<Value>, i: usize) -> (r: Option<String>)
    ensures
        match r {
            Some(s) => arg_text(p@, i as int) == Some(s@),
            None => arg_text(p@, i as int) is None,
        },
{
    if i < p.len() { value_text(&p[i]) } else { None }
}

fn get_items(p: &Vec<Value>, i: usize) -> (r: Option<&Vec<Value>>)
    ensures
        match r {
            Some(a) => arg_items(p@, i as int) == Some(a@),
            None => arg_items(p@, i as int) is None,
        },
{
    if i < p.len() { value_items(&p[i]) } else { None }
}

/// The value stored under the text key `key` in a dictionary: the first entry
/// with that key.
pub open spec fn dict_get(d: Seq<(Value, Value)>, key: Seq<char>) -> Option<Value>
    decreases d.len(),
{
    if d.len() == 0 {
        None
    } else if spec_text(d[0].0) == Some(key) {
        Some(d[0].1)
    } else {
        dict_get(d.drop_first(), key)
    }
}

pub open spec fn dict_u64(d: Seq<(Value, Value)>, key: Seq<char>) -> Option<u64> {
    match dict_get(d, key) {
        Some(v) => spec_u64(v),
        None => None,
    }
}

/// A flag of a dictionary: set only where its value is `true`.
pub open spec fn dict_flag(d: Seq<(Value, Value)>, key: Seq<char>) -> bool {
    dict_get(d, key) == Some(Value::Boolean(true))
}

fn dict_lookup<'a>(d: &'a Vec<(Value, Value)>, key: &str) -> (r: Option<&'a Value>)
    ensures
        match r {
            Some(v) => dict_get(d@, key@) == Some(*v),
            None => dict_get(d@, key@) is None,
        },
{
    let mut i: usize = 0;
    assert(d@.subrange(0, d@.len() as int) =~= d@);
    while i < d.len()
        invariant
            i <= d@.len(),
            dict_get(d@, key@) == dict_get(d@.subrange(i as int, d@.len() as int), key@),
        decreases d@.len() - i,
    {
        let ghost rest = d@.subrange(i as int, d@.len() as int);
        assert(rest.drop_first() =~= d@.subrange(i + 1, d@.len() as int));
        match &d[i].0 {
            Value::Str(s) => {
                if text_is(s, key) {
                    return Some(&d[i].1);
                }
            },
            _ => {},
        }
        i = i + 1;
    }
    assert(d@.subrange(i as int, d@.len() as int).len() == 0);
    None
}

fn dict_lookup_u64(d: &Vec<(Value, Value)>, key: &str) -> (r: Option<u64>)
    ensures
        r == dict_u64(d@, key@),
{
    match dict_lookup(d, key) {
        Some(v) => value_u64(v),
        None => None,
    }
}

fn dict_lookup_flag(d: &Vec<(Value, Value)>, key: &str) -> (r: bool)
    ensures
        r == dict_flag(d@, key@),
{
    match dict_lookup(d, key) {
        Some(Value::Boolean(b)) => *b,
        _ => false,
    }
}


/// A run-length entry of a line update: `[text, hl_id?, repeat?]`.
pub open spec fn line_cell_ok(v: Value) -> bool {
    match spec_items(v) {
        Some(a) => {
            &&& arg_text(a, 0) is Some
            &&& (a.len() < 2 || arg_u64(a, 1) is Some)
            &&& (a.len() < 3 || arg_u64(a, 2) is Some)
        },
        None => false,
    }
}

pub open spec fn line_cell_of(v: Value, c: LineCellView) -> bool {
    match spec_items(v) {
        Some(a) => {
            &&& line_cell_ok(v)
            &&& arg_text(a, 0) == Some(c.0)
            &&& c.1 == arg_u64(a, 1)
            &&& c.2 == (if a.len() < 3 { 1u64 } else { arg_u64(a, 2)->0 })
        },
        None => false,
    }
}

fn decode_line_cell(v: &Value) -> (r: Option<LineCell>)
    ensures
        match r {
            Some(c) => line_cell_of(*v, c@),
            None => !line_cell_ok(*v),
        },
{
    let a = match value_items(v) {
        Some(a) => a,
        None => return None,
    };
    let text = match get_text(a, 0) {
        Some(t) => t,
        None => return None,
    };
    let hl = get_u64(a, 1);
    if a.len() >= 2 && hl.is_none() {
        return None;
    }
    let repeat: u64 = if a.len() < 3 {
        1
    } else {
        match get_u64(a, 2) {
            Some(n) => n,
            None => return None,
        }
    };
    Some(LineCell { text, hl, repeat })
}

fn decode_line_cells(items: &Vec<Value>) -> (r: Option<Vec<LineCell>>)
    ensures
        match r {
            Some(cells) => cells@.len() == items@.len() && forall|j: int|
                0 <= j < items@.len() ==> line_cell_of(#[trigger] items@[j], cells@[j]@),
            None => exists|j: int| 0 <= j < items@.len() && !line_cell_ok(#[trigger] items@[j]),
        },
{
    let mut out: Vec<LineCell> = Vec::new();
    let mut i: usize = 0;
    while i < items.len()
        invariant
            i <= items@.len(),
            out@.len() == i,
            forall|j: int| 0 <= j < i ==> line_cell_of(#[trigger] items@[j], out@[j]@),
        decreases items@.len() - i,
    {
        match decode_line_cell(&items[i]) {
            Some(c) => out.push(c),
            None => return None,
        }
        i = i + 1;
    }
    Some(out)
}

/// The attributes that a highlight dictionary describes; keys it does not
/// hold, and values of another type, leave a field unset.
pub open spec fn hl_attr_of(d: Seq<(Value, Value)>) -> HlAttr {
    HlAttr {
        foreground: dict_u64(d, "foreground"@),
        background: dict_u64(d, "background"@),
        special: dict_u64(d, "special"@),
        reverse: dict_flag(d, "reverse"@),
        italic: dict_flag(d, "italic"@),
        bold: dict_flag(d, "bold"@),
        underline: dict_flag(d, "underline"@),
        undercurl: dict_flag(d, "undercurl"@),
        strikethrough: dict_flag(d, "strikethrough"@),
    }
}

fn decode_hl_attr(d: &Vec<(Value, Value)>) -> (r: HlAttr)
    ensures
        r == hl_attr_of(d@),
{
    HlAttr {
        foreground: dict_lookup_u64(d, "foreground"),
        background: dict_lookup_u64(d, "background"),
        special: dict_lookup_u64(d, "special"),
        reverse: dict_lookup_flag(d, "reverse"),
        italic: dict_lookup_flag(d, "italic"),
        bold: dict_lookup_flag(d, "bold"),
        underline: dict_lookup_flag(d, "underline"),
        undercurl: dict_lookup_flag(d, "undercurl"),
        strikethrough: dict_lookup_flag(d, "strikethrough"),
    }
}

/// The cursor shape that a `cursor_shape` text names.
pub open spec fn shape_code(s: Seq<char>) -> Option<u64> {
    if s == "block"@ {
        Some(0u64)
    } else if s == "horizontal"@ {
        Some(1u64)
    } else if s == "vertical"@ {
        Some(2u64)
    } else {
        None
    }
}

pub open spec fn mode_info_of(d: Seq<(Value, Value)>) -> ModeInfo {
    ModeInfo {
        cursor_shape: match dict_get(d, "cursor_shape"@) {
            Some(v) => match spec_text(v) {
                Some(s) => shape_code(s),
                None => None,
            },
            None => None,
        },
        cell_percentage: dict_u64(d, "cell_percentage"@),
        blinkwait: dict_u64(d, "blinkwait"@),
        blinkon: dict_u64(d, "blinkon"@),
        blinkoff: dict_u64(d, "blinkoff"@),
        attr_id: dict_u64(d, "attr_id"@),
    }
}

fn decode_shape(s: &String) -> (r: Option<u64>)
    ensures
        r == shape_code(s@),
{
    if text_is(s, "block") {
        Some(0)
    } else if text_is(s, "horizontal") {
        Some(1)
    } else if text_is(s, "vertical") {
        Some(2)
    } else {
        None
    }
}

fn decode_mode_info(d: &Vec<(Value, Value)>) -> (r: ModeInfo)
    ensures
        r == mode_info_of(d@),
{
    let shape = match dict_lookup(d, "cursor_shape") {
        Some(Value::Str(s)) => decode_shape(s),
        _ => None,
    };
    ModeInfo {
        cursor_shape: shape,
        cell_percentage: dict_lookup_u64(d, "cell_percentage"),
        blinkwait: dict_lookup_u64(d, "blinkwait"),
        blinkon: dict_lookup_u64(d, "blinkon"),
        blinkoff: dict_lookup_u64(d, "blinkoff"),
        attr_id: dict_lookup_u64(d, "attr_id"),
    }
}

fn decode_mode_infos(items: &Vec<Value>) -> (r: Option<Vec<ModeInfo>>)
    ensures
        match r {
            Some(m) => m@.len() == items@.len() && forall|j: int|
                0 <= j < items@.len() ==> spec_entries(#[trigger] items@[j]) is Some
                    && m@[j] == mode_info_of(spec_entries(items@[j])->0),
            None => exists|j: int| 0 <= j < items@.len() && spec_entries(#[trigger] items@[j]) is None,
        },
{
    let mut out: Vec<ModeInfo> = Vec::new();
    let mut i: usize = 0;
    while i < items.len()
        invariant
            i <= items@.len(),
            out@.len() == i,
            forall|j: int| 0 <= j < i ==> spec_entries(#[trigger] items@[j]) is Some
                && out@[j] == mode_info_of(spec_entries(items@[j])->0),
        decreases items@.len() - i,
    {
        match value_entries(&items[i]) {
            Some(d) => out.push(decode_mode_info(d)),
            None => return None,
        }
        i = i + 1;
    }
    Some(out)
}


/// A popup menu item: `[word, kind, menu, info]`.
pub open spec fn pmenu_item_of(v: Value, it: PmenuItem) -> bool {
    match spec_items(v) {
        Some(a) => {
            &&& arg_text(a, 0) == Some(it.word@)
            &&& arg_text(a, 1) == Some(it.kind@)
            &&& arg_text(a, 2) == Some(it.menu@)
            &&& arg_text(a, 3) == Some(it.info@)
        },
        None => false,
    }
}

pub open spec fn pmenu_item_ok(v: Value) -> bool {
    match spec_items(v) {
        Some(a) => forall|k: int| 0 <= k < 4 ==> #[trigger] arg_text(a, k) is Some,
        None => false,
    }
}

fn decode_pmenu_item(v: &Value) -> (r: Option<PmenuItem>)
    ensures
        match r {
            Some(it) => pmenu_item_of(*v, it),
            None => !pmenu_item_ok(*v),
        },
{
    let a = match value_items(v) {
        Some(a) => a,
        None => return None,
    };
    let word = match get_text(a, 0) { Some(t) => t, None => return None };
    let kind = match get_text(a, 1) { Some(t) => t, None => return None };
    let menu = match get_text(a, 2) { Some(t) => t, None => return None };
    let info = match get_text(a, 3) { Some(t) => t, None => return None };
    proof {
        assert forall|k: int| 0 <= k < 4 implies #[trigger] arg_text(a@, k) is Some by {
            if k == 0 {} else if k == 1 {} else if k == 2 {} else {}
        }
    }
    Some(PmenuItem { word, kind, menu, info })
}

fn decode_pmenu_items(items: &Vec<Value>) -> (r: Option<Vec<PmenuItem>>)
    ensures
        match r {
            Some(m) => m@.len() == items@.len() && forall|j: int|
                0 <= j < items@.len() ==> pmenu_item_of(#[trigger] items@[j], m@[j]),
            None => exists|j: int| 0 <= j < items@.len() && !pmenu_item_ok(#[trigger] items@[j]),
        },
{
    let mut out: Vec<PmenuItem> = Vec::new();
    let mut i: usize = 0;
    while i < items.len()
        invariant
            i <= items@.len(),
            out@.len() == i,
            forall|j: int| 0 <= j < i ==> pmenu_item_of(#[trigger] items@[j], out@[j]),
        decreases items@.len() - i,
    {
        match decode_pmenu_item(&items[i]) {
            Some(it) => out.push(it),
            None => return None,
        }
        i = i + 1;
    }
    Some(out)
}

/// A chunk of command-line content: `[hl_id, text]`.
pub open spec fn chunk_ok(v: Value) -> bool {
    match spec_items(v) {
        Some(a) => arg_u64(a, 0) is Some && arg_text(a, 1) is Some,
        None => false,
    }
}

pub open spec fn chunk_of(v: Value, c: CmdlineChunk) -> bool {
    match spec_items(v) {
        Some(a) => arg_u64(a, 0) == Some(c.hl) && arg_text(a, 1) == Some(c.text@),
        None => false,
    }
}

fn decode_chunks(items: &Vec<Value>) -> (r: Option<Vec<CmdlineChunk>>)
    ensures
        match r {
            Some(m) => m@.len() == items@.len() && forall|j: int|
                0 <= j < items@.len() ==> chunk_of(#[trigger] items@[j], m@[j]),
            None => exists|j: int| 0 <= j < items@.len() && !chunk_ok(#[trigger] items@[j]),
        },
{
    let mut out: Vec<CmdlineChunk> = Vec::new();
    let mut i: usize = 0;
    while i < items.len()
        invariant
            i <= items@.len(),
            out@.len() == i,
            forall|j: int| 0 <= j < i ==> chunk_of(#[trigger] items@[j], out@[j]),
        decreases items@.len() - i,
    {
        let a = match value_items(&items[i]) {
            Some(a) => a,
            None => return None,
        };
        let hl = match get_u64(a, 0) { Some(h) => h, None => return None };
        let text = match get_text(a, 1) { Some(t) => t, None => return None };
        out.push(CmdlineChunk { hl, text });
        i = i + 1;
    }
    Some(out)
}

/// A tab of the tab line: a dictionary with a handle under `tab` and a text
/// under `name`.
pub open spec fn tab_ok(v: Value) -> bool {
    match spec_entries(v) {
        Some(d) => {
            &&& dict_get(d, "tab"@) is Some
            &&& spec_ext(dict_get(d, "tab"@)->0) is Some
            &&& dict_get(d, "name"@) is Some
            &&& spec_text(dict_get(d, "name"@)->0) is Some
        },
        None => false,
    }
}

pub open spec fn tab_of(v: Value, t: Tab) -> bool {
    match spec_entries(v) {
        Some(d) => {
            &&& tab_ok(v)
            &&& spec_ext(dict_get(d, "tab"@)->0) == Some(t.handle@)
            &&& spec_text(dict_get(d, "name"@)->0) == Some(t.name@)
        },
        None => false,
    }
}

fn decode_tabs(items: &Vec<Value>) -> (r: Option<Vec<Tab>>)
    ensures
        match r {
            Some(m) => m@.len() == items@.len() && forall|j: int|
                0 <= j < items@.len() ==> tab_of(#[trigger] items@[j], m@[j]),
            None => exists|j: int| 0 <= j < items@.len() && !tab_ok(#[trigger] items@[j]),
        },
{
    let mut out: Vec<Tab> = Vec::new();
    let mut i: usize = 0;
    while i < items.len()
        invariant
            i <= items@.len(),
            out@.len() == i,
            forall|j: int| 0 <= j < i ==> tab_of(#[trigger] items@[j], out@[j]),
        decreases items@.len() - i,
    {
        let d = match value_entries(&items[i]) {
            Some(d) => d,
            None => return None,
        };
        let handle = match dict_lookup(d, "tab") {
            Some(v) => match value_ext(v) { Some(b) => b, None => return None },
            None => return None,
        };
        let name = match dict_lookup(d, "name") {
            Some(v) => match value_text(v) { Some(t) => t, None => return None },
            None => return None,
        };
        out.push(Tab { handle, name });
        i = i + 1;
    }
    Some(out)
}

fn decode_texts(items: &Vec<Value>) -> (r: Option<Vec<String>>)
    ensures
        match r {
            Some(m) => m@.len() == items@.len() && forall|j: int|
                0 <= j < items@.len() ==> spec_text(#[trigger] items@[j]) == Some(m@[j]@),
            None => exists|j: int| 0 <= j < items@.len() && spec_text(#[trigger] items@[j]) is None,
        },
{
    let mut out: Vec<String> = Vec::new();
    let mut i: usize = 0;
    while i < items.len()
        invariant
            i <= items@.len(),
            out@.len() == i,
            forall|j: int| 0 <= j < i ==> spec_text(#[trigger] items@[j]) == Some(out@[j]@),
        decreases items@.len() - i,
    {
        match value_text(&items[i]) {
            Some(t) => out.push(t),
            None => return None,
        }
        i = i + 1;
    }
    Some(out)
}


pub open spec fn grid_line_ok(p: Seq<Value>) -> bool {
    &&& arg_u64(p, 0) is Some
    &&& arg_u64(p, 1) is Some
    &&& arg_u64(p, 2) is Some
    &&& arg_items(p, 3) is Some
    &&& forall|j: int| 0 <= j < arg_items(p, 3)->0.len() ==> line_cell_ok(#[trigger] arg_items(p, 3)->0[j])
}

pub open spec fn pmenu_show_ok(p: Seq<Value>) -> bool {
    &&& arg_items(p, 0) is Some
    &&& (forall|j: int| 0 <= j < arg_items(p, 0)->0.len() ==> pmenu_item_ok(#[trigger] arg_items(p, 0)->0[j]))
    &&& arg_i64(p, 1) is Some
    &&& arg_u64(p, 2) is Some
    &&& arg_u64(p, 3) is Some
    &&& arg_u64(p, 4) is Some
}

pub open spec fn cmdline_show_ok(p: Seq<Value>) -> bool {
    &&& arg_items(p, 0) is Some
    &&& (forall|j: int| 0 <= j < arg_items(p, 0)->0.len() ==> chunk_ok(#[trigger] arg_items(p, 0)->0[j]))
    &&& arg_u64(p, 1) is Some
    &&& arg_text(p, 2) is Some
    &&& arg_text(p, 3) is Some
    &&& arg_u64(p, 4) is Some
    &&& arg_u64(p, 5) is Some
}

pub open spec fn tabline_ok(p: Seq<Value>) -> bool {
    &&& 0 < p.len() && spec_ext(p[0]) is Some
    &&& arg_items(p, 1) is Some
    &&& forall|j: int| 0 <= j < arg_items(p, 1)->0.len() ==> tab_ok(#[trigger] arg_items(p, 1)->0[j])
}

pub open spec fn mode_info_set_ok(p: Seq<Value>) -> bool {
    &&& arg_bool(p, 0) is Some
    &&& arg_items(p, 1) is Some
    &&& forall|j: int| 0 <= j < arg_items(p, 1)->0.len() ==> spec_entries(#[trigger] arg_items(p, 1)->0[j]) is Some
}

pub open spec fn wildmenu_show_ok(p: Seq<Value>) -> bool {
    &&& arg_items(p, 0) is Some
    &&& forall|j: int| 0 <= j < arg_items(p, 0)->0.len() ==> spec_text(#[trigger] arg_items(p, 0)->0[j]) is Some
}

pub open spec fn u64_args_ok(p: Seq<Value>, n: int) -> bool {
    forall|k: int| 0 <= k < n ==> #[trigger] arg_u64(p, k) is Some
}

/// Whether the parameters of one occurrence of the known sub-event `name` have
/// the arity and types that it needs (extra trailing parameters are allowed).
pub open spec fn args_ok(name: Seq<char>, p: Seq<Value>) -> bool {
    if name == "grid_line"@ {
        grid_line_ok(p)
    } else if name == "grid_resize"@ {
        u64_args_ok(p, 3)
    } else if name == "grid_clear"@ {
        u64_args_ok(p, 1)
    } else if name == "grid_scroll"@ {
        u64_args_ok(p, 5) && arg_i64(p, 5) is Some && arg_i64(p, 6) is Some
    } else if name == "grid_cursor_goto"@ {
        u64_args_ok(p, 3)
    } else if name == "hl_attr_define"@ {
        arg_u64(p, 0) is Some && 1 < p.len() && spec_entries(p[1]) is Some
    } else if name == "default_colors_set"@ {
        arg_i64(p, 0) is Some && arg_i64(p, 1) is Some && arg_i64(p, 2) is Some
    } else if name == "mode_info_set"@ {
        mode_info_set_ok(p)
    } else if name == "mode_change"@ {
        arg_text(p, 0) is Some && arg_u64(p, 1) is Some
    } else if name == "popupmenu_show"@ {
        pmenu_show_ok(p)
    } else if name == "popupmenu_select"@ {
        arg_i64(p, 0) is Some
    } else if name == "cmdline_show"@ {
        cmdline_show_ok(p)
    } else if name == "cmdline_pos"@ {
        u64_args_ok(p, 2)
    } else if name == "tabline_update"@ {
        tabline_ok(p)
    } else if name == "wildmenu_show"@ {
        wildmenu_show_ok(p)
    } else if name == "wildmenu_select"@ {
        arg_i64(p, 0) is Some
    } else {
        true
    }
}

/// The sub-event names that decode to an event.
pub open spec fn known_name(name: Seq<char>) -> bool {
    ||| name == "grid_line"@
    ||| name == "grid_resize"@
    ||| name == "grid_clear"@
    ||| name == "grid_scroll"@
    ||| name == "grid_cursor_goto"@
    ||| name == "hl_attr_define"@
    ||| name == "default_colors_set"@
    ||| name == "mode_info_set"@
    ||| name == "mode_change"@
    ||| name == "popupmenu_show"@
    ||| name == "popupmenu_select"@
    ||| name == "popupmenu_hide"@
    ||| name == "cmdline_show"@
    ||| name == "cmdline_pos"@
    ||| name == "cmdline_hide"@
    ||| name == "tabline_update"@
    ||| name == "wildmenu_show"@
    ||| name == "wildmenu_select"@
    ||| name == "wildmenu_hide"@
    ||| name == "flush"@
}

/// `e` is the event that one occurrence of `name` with parameters `p` describes.
pub open spec fn event_of(name: Seq<char>, p: Seq<Value>, e: UiEvent) -> bool {
    match e {
        UiEvent::GridLine { grid, row, col, cells } => {
            &&& name == "grid_line"@
            &&& grid_line_ok(p)
            &&& arg_u64(p, 0) == Some(grid) && arg_u64(p, 1) == Some(row) && arg_u64(p, 2) == Some(col)
            &&& cells@.len() == arg_items(p, 3)->0.len()
            &&& forall|j: int| 0 <= j < cells@.len() ==> line_cell_of(#[trigger] arg_items(p, 3)->0[j], cells@[j]@)
        },
        UiEvent::GridResize { grid, width, height } => {
            &&& name == "grid_resize"@
            &&& arg_u64(p, 0) == Some(grid) && arg_u64(p, 1) == Some(width) && arg_u64(p, 2) == Some(height)
        },
        UiEvent::GridClear { grid } => name == "grid_clear"@ && arg_u64(p, 0) == Some(grid),
        UiEvent::GridScroll { grid, top, bot, left, right, rows, cols } => {
            &&& name == "grid_scroll"@
            &&& arg_u64(p, 0) == Some(grid) && arg_u64(p, 1) == Some(top) && arg_u64(p, 2) == Some(bot)
            &&& arg_u64(p, 3) == Some(left) && arg_u64(p, 4) == Some(right)
            &&& arg_i64(p, 5) == Some(rows) && arg_i64(p, 6) == Some(cols)
        },
        UiEvent::GridCursorGoto { grid, row, col } => {
            &&& name == "grid_cursor_goto"@
            &&& arg_u64(p, 0) == Some(grid) && arg_u64(p, 1) == Some(row) && arg_u64(p, 2) == Some(col)
        },
        UiEvent::HlAttrDefine { id, attrs } => {
            &&& name == "hl_attr_define"@
            &&& arg_u64(p, 0) == Some(id) && 1 < p.len() && spec_entries(p[1]) is Some
            &&& attrs == hl_attr_of(spec_entries(p[1])->0)
        },
        UiEvent::DefaultColorsSet { fg, bg, sp } => {
            &&& name == "default_colors_set"@
            &&& arg_i64(p, 0) == Some(fg) && arg_i64(p, 1) == Some(bg) && arg_i64(p, 2) == Some(sp)
        },
        UiEvent::ModeInfoSet { cursor_style_enabled, modes } => {
            &&& name == "mode_info_set"@
            &&& mode_info_set_ok(p)
            &&& arg_bool(p, 0) == Some(cursor_style_enabled)
            &&& modes@.len() == arg_items(p, 1)->0.len()
            &&& forall|j: int| 0 <= j < modes@.len() ==> modes@[j] == mode_info_of(
                spec_entries(#[trigger] arg_items(p, 1)->0[j])->0)
        },
        UiEvent::ModeChange { name: mode, index } => {
            &&& name == "mode_change"@
            &&& arg_text(p, 0) == Some(mode@) && arg_u64(p, 1) == Some(index)
        },
        UiEvent::PopupmenuShow { items, selected, row, col, grid } => {
            &&& name == "popupmenu_show"@
            &&& pmenu_show_ok(p)
            &&& items@.len() == arg_items(p, 0)->0.len()
            &&& (forall|j: int| 0 <= j < items@.len() ==> pmenu_item_of(#[trigger] arg_items(p, 0)->0[j], items@[j]))
            &&& arg_i64(p, 1) == Some(selected)
            &&& arg_u64(p, 2) == Some(row) && arg_u64(p, 3) == Some(col) && arg_u64(p, 4) == Some(grid)
        },
        UiEvent::PopupmenuSelect { selected } => name == "popupmenu_select"@ && arg_i64(p, 0) == Some(selected),
        UiEvent::PopupmenuHide => name == "popupmenu_hide"@,
        UiEvent::CmdlineShow { content, pos, firstc, prompt, indent, level } => {
            &&& name == "cmdline_show"@
            &&& cmdline_show_ok(p)
            &&& content@.len() == arg_items(p, 0)->0.len()
            &&& (forall|j: int| 0 <= j < content@.len() ==> chunk_of(#[trigger] arg_items(p, 0)->0[j], content@[j]))
            &&& arg_u64(p, 1) == Some(pos)
            &&& arg_text(p, 2) == Some(firstc@) && arg_text(p, 3) == Some(prompt@)
            &&& arg_u64(p, 4) == Some(indent) && arg_u64(p, 5) == Some(level)
        },
        UiEvent::CmdlinePos { pos, level } => {
            name == "cmdline_pos"@ && arg_u64(p, 0) == Some(pos) && arg_u64(p, 1) == Some(level)
        },
        UiEvent::CmdlineHide => name == "cmdline_hide"@,
        UiEvent::TablineUpdate { current, tabs } => {
            &&& name == "tabline_update"@
            &&& tabline_ok(p)
            &&& spec_ext(p[0]) == Some(current@)
            &&& tabs@.len() == arg_items(p, 1)->0.len()
            &&& forall|j: int| 0 <= j < tabs@.len() ==> tab_of(#[trigger] arg_items(p, 1)->0[j], tabs@[j])
        },
        UiEvent::WildmenuShow { candidates } => {
            &&& name == "wildmenu_show"@
            &&& wildmenu_show_ok(p)
            &&& candidates@.len() == arg_items(p, 0)->0.len()
            &&& forall|j: int| 0 <= j < candidates@.len() ==> spec_text(#[trigger] arg_items(p, 0)->0[j]) == Some(candidates@[j]@)
        },
        UiEvent::WildmenuSelect { selected } => name == "wildmenu_select"@ && arg_i64(p, 0) == Some(selected),
        UiEvent::WildmenuHide => name == "wildmenu_hide"@,
        UiEvent::Flush => name == "flush"@,
    }
}


/// What one occurrence of a sub-event decodes to.
pub enum Decoded {
    Event(UiEvent),
    /// A known sub-event whose parameters have the wrong arity or types.
    Malformed,
    /// A sub-event name that this front-end does not render.
    Unknown,
}

pub open spec fn decoded_of(name: Seq<char>, p: Seq<Value>, d: Decoded) -> bool {
    match d {
        Decoded::Event(e) => known_name(name) && args_ok(name, p) && event_of(name, p, e),
        Decoded::Malformed => known_name(name) && !args_ok(name, p),
        Decoded::Unknown => !known_name(name),
    }
}

fn decode_grid_line(p: &Vec<Value>) -> (r: Option<UiEvent>)
    ensures
        match r {
            Some(e) => event_of("grid_line"@, p@, e) && grid_line_ok(p@),
            None => !grid_line_ok(p@),
        },
{
    let grid = match get_u64(p, 0) { Some(x) => x, None => return None };
    let row = match get_u64(p, 1) { Some(x) => x, None => return None };
    let col = match get_u64(p, 2) { Some(x) => x, None => return None };
    let items = match get_items(p, 3) { Some(x) => x, None => return None };
    match decode_line_cells(items) {
        Some(cells) => {
            assert forall|j: int| 0 <= j < items@.len() implies line_cell_ok(#[trigger] items@[j]) by {
                assert(line_cell_of(items@[j], cells@[j]@));
            }
            Some(UiEvent::GridLine { grid, row, col, cells })
        },
        None => {
            proof {
                let j = choose|j: int| 0 <= j < items@.len() && !line_cell_ok(#[trigger] items@[j]);
                assert(!line_cell_ok(arg_items(p@, 3)->0[j]));
            }
            None
        },
    }
}

fn decode_pmenu_show(p: &Vec<Value>) -> (r: Option<UiEvent>)
    ensures
        match r {
            Some(e) => event_of("popupmenu_show"@, p@, e) && pmenu_show_ok(p@),
            None => !pmenu_show_ok(p@),
        },
{
    let raw = match get_items(p, 0) { Some(x) => x, None => return None };
    let items = match decode_pmenu_items(raw) { Some(x) => x, None => return None };
    let selected = match get_i64(p, 1) { Some(x) => x, None => return None };
    let row = match get_u64(p, 2) { Some(x) => x, None => return None };
    let col = match get_u64(p, 3) { Some(x) => x, None => return None };
    let grid = match get_u64(p, 4) { Some(x) => x, None => return None };
    Some(UiEvent::PopupmenuShow { items, selected, row, col, grid })
}

fn decode_cmdline_show(p: &Vec<Value>) -> (r: Option<UiEvent>)
    ensures
        match r {
            Some(e) => event_of("cmdline_show"@, p@, e) && cmdline_show_ok(p@),
            None => !cmdline_show_ok(p@),
        },
{
    let raw = match get_items(p, 0) { Some(x) => x, None => return None };
    let content = match decode_chunks(raw) { Some(x) => x, None => return None };
    let pos = match get_u64(p, 1) { Some(x) => x, None => return None };
    let firstc = match get_text(p, 2) { Some(x) => x, None => return None };
    let prompt = match get_text(p, 3) { Some(x) => x, None => return None };
    let indent = match get_u64(p, 4) { Some(x) => x, None => return None };
    let level = match get_u64(p, 5) { Some(x) => x, None => return None };
    Some(UiEvent::CmdlineShow { content, pos, firstc, prompt, indent, level })
}

fn decode_tabline(p: &Vec<Value>) -> (r: Option<UiEvent>)
    ensures
        match r {
            Some(e) => event_of("tabline_update"@, p@, e) && tabline_ok(p@),
            None => !tabline_ok(p@),
        },
{
    if p.len() == 0 {
        return None;
    }
    let current = match value_ext(&p[0]) { Some(x) => x, None => return None };
    let raw = match get_items(p, 1) { Some(x) => x, None => return None };
    let tabs = match decode_tabs(raw) {
        Some(x) => x,
        None => {
            proof {
                let j = choose|j: int| 0 <= j < raw@.len() && !tab_ok(#[trigger] raw@[j]);
                assert(!tab_ok(arg_items(p@, 1)->0[j]));
            }
            return None;
        },
    };
    assert forall|j: int| 0 <= j < raw@.len() implies tab_ok(#[trigger] raw@[j]) by {
        assert(tab_of(raw@[j], tabs@[j]));
    }
    Some(UiEvent::TablineUpdate { current, tabs })
}

fn decode_mode_info_set(p: &Vec<Value>) -> (r: Option<UiEvent>)
    ensures
        match r {
            Some(e) => event_of("mode_info_set"@, p@, e) && mode_info_set_ok(p@),
            None => !mode_info_set_ok(p@),
        },
{
    let enabled = match get_bool(p, 0) { Some(x) => x, None => return None };
    let raw = match get_items(p, 1) { Some(x) => x, None => return None };
    let modes = match decode_mode_infos(raw) { Some(x) => x, None => return None };
    Some(UiEvent::ModeInfoSet { cursor_style_enabled: enabled, modes })
}

fn decode_wildmenu_show(p: &Vec<Value>) -> (r: Option<UiEvent>)
    ensures
        match r {
            Some(e) => event_of("wildmenu_show"@, p@, e) && wildmenu_show_ok(p@),
            None => !wildmenu_show_ok(p@),
        },
{
    let raw = match get_items(p, 0) { Some(x) => x, None => return None };
    let candidates = match decode_texts(raw) { Some(x) => x, None => return None };
    Some(UiEvent::WildmenuShow { candidates })
}

fn decode_hl_attr_define(p: &Vec<Value>) -> (r: Option<UiEvent>)
    ensures
        match r {
            Some(e) => event_of("hl_attr_define"@, p@, e) && (arg_u64(p@, 0) is Some && 1 < p@.len() && spec_entries(p@[1]) is Some),
            None => !(arg_u64(p@, 0) is Some && 1 < p@.len() && spec_entries(p@[1]) is Some),
        },
{
    let id = match get_u64(p, 0) { Some(x) => x, None => return None };
    if p.len() < 2 {
        return None;
    }
    match value_entries(&p[1]) {
        Some(d) => Some(UiEvent::HlAttrDefine { id, attrs: decode_hl_attr(d) }),
        None => None,
    }
}

fn decode_u64s3(p: &Vec<Value>) -> (r: Option<(u64, u64, u64)>)
    ensures
        match r {
            Some(t) => u64_args_ok(p@, 3) && arg_u64(p@, 0) == Some(t.0) && arg_u64(p@, 1) == Some(t.1)
                && arg_u64(p@, 2) == Some(t.2),
            None => !u64_args_ok(p@, 3),
        },
{
    let a = match get_u64(p, 0) { Some(x) => x, None => return None };
    let b = match get_u64(p, 1) { Some(x) => x, None => return None };
    let c = match get_u64(p, 2) { Some(x) => x, None => return None };
    assert forall|k: int| 0 <= k < 3 implies #[trigger] arg_u64(p@, k) is Some by {
        if k == 0 {} else if k == 1 {} else {}
    }
    Some((a, b, c))
}

fn decode_grid_scroll(p: &Vec<Value>) -> (r: Option<UiEvent>)
    ensures
        match r {
            Some(e) => event_of("grid_scroll"@, p@, e) && u64_args_ok(p@, 5) && arg_i64(p@, 5) is Some && arg_i64(p@, 6) is Some,
            None => !(u64_args_ok(p@, 5) && arg_i64(p@, 5) is Some && arg_i64(p@, 6) is Some),
        },
{
    let grid = match get_u64(p, 0) { Some(x) => x, None => return None };
    let top = match get_u64(p, 1) { Some(x) => x, None => return None };
    let bot = match get_u64(p, 2) { Some(x) => x, None => return None };
    let left = match get_u64(p, 3) { Some(x) => x, None => return None };
    let right = match get_u64(p, 4) { Some(x) => x, None => return None };
    let rows = match get_i64(p, 5) { Some(x) => x, None => return None };
    let cols = match get_i64(p, 6) { Some(x) => x, None => return None };
    assert forall|k: int| 0 <= k < 5 implies #[trigger] arg_u64(p@, k) is Some by {
        if k == 0 {} else if k == 1 {} else if k == 2 {} else if k == 3 {} else {}
    }
    Some(UiEvent::GridScroll { grid, top, bot, left, right, rows, cols })
}


fn event_or_malformed(r: Option<UiEvent>) -> (d: Decoded)
    ensures
        match r {
            Some(e) => d == Decoded::Event(e),
            None => d is Malformed,
        },
{
    match r {
        Some(e) => Decoded::Event(e),
        None => Decoded::Malformed,
    }
}

/// Decodes one occurrence of the sub-event `name` with parameters `p`.
pub fn decode_occurrence(name: &String, p: &Vec<Value>) -> (d: Decoded)
    ensures
        decoded_of(name@, p@, d),
{
    if text_is(name, "grid_line") {
        event_or_malformed(decode_grid_line(p))
    } else if text_is(name, "grid_resize") {
        match decode_u64s3(p) {
            Some((grid, width, height)) => Decoded::Event(UiEvent::GridResize { grid, width, height }),
            None => Decoded::Malformed,
        }
    } else if text_is(name, "grid_clear") {
        match get_u64(p, 0) {
            Some(grid) => {
                assert forall|k: int| 0 <= k < 1 implies #[trigger] arg_u64(p@, k) is Some by {}
                Decoded::Event(UiEvent::GridClear { grid })
            },
            None => Decoded::Malformed,
        }
    } else if text_is(name, "grid_scroll") {
        event_or_malformed(decode_grid_scroll(p))
    } else if text_is(name, "grid_cursor_goto") {
        match decode_u64s3(p) {
            Some((grid, row, col)) => Decoded::Event(UiEvent::GridCursorGoto { grid, row, col }),
            None => Decoded::Malformed,
        }
    } else if text_is(name, "hl_attr_define") {
        event_or_malformed(decode_hl_attr_define(p))
    } else if text_is(name, "default_colors_set") {
        match (get_i64(p, 0), get_i64(p, 1), get_i64(p, 2)) {
            (Some(fg), Some(bg), Some(sp)) => Decoded::Event(UiEvent::DefaultColorsSet { fg, bg, sp }),
            _ => Decoded::Malformed,
        }
    } else if text_is(name, "mode_info_set") {
        event_or_malformed(decode_mode_info_set(p))
    } else if text_is(name, "mode_change") {
        match (get_text(p, 0), get_u64(p, 1)) {
            (Some(mode), Some(index)) => Decoded::Event(UiEvent::ModeChange { name: mode, index }),
            _ => Decoded::Malformed,
        }
    } else if text_is(name, "popupmenu_show") {
        event_or_malformed(decode_pmenu_show(p))
    } else if text_is(name, "popupmenu_select") {
        match get_i64(p, 0) {
            Some(selected) => Decoded::Event(UiEvent::PopupmenuSelect { selected }),
            None => Decoded::Malformed,
        }
    } else if text_is(name, "cmdline_show") {
        event_or_malformed(decode_cmdline_show(p))
    } else if text_is(name, "cmdline_pos") {
        match (get_u64(p, 0), get_u64(p, 1)) {
            (Some(pos), Some(level)) => {
                assert forall|k: int| 0 <= k < 2 implies #[trigger] arg_u64(p@, k) is Some by {
                    if k == 0 {} else {}
                }
                Decoded::Event(UiEvent::CmdlinePos { pos, level })
            },
            _ => Decoded::Malformed,
        }
    } else if text_is(name, "tabline_update") {
        event_or_malformed(decode_tabline(p))
    } else if text_is(name, "wildmenu_show") {
        event_or_malformed(decode_wildmenu_show(p))
    } else if text_is(name, "wildmenu_select") {
        match get_i64(p, 0) {
            Some(selected) => Decoded::Event(UiEvent::WildmenuSelect { selected }),
            None => Decoded::Malformed,
        }
    } else if text_is(name, "popupmenu_hide") {
        Decoded::Event(UiEvent::PopupmenuHide)
    } else if text_is(name, "cmdline_hide") {
        Decoded::Event(UiEvent::CmdlineHide)
    } else if text_is(name, "wildmenu_hide") {
        Decoded::Event(UiEvent::WildmenuHide)
    } else if text_is(name, "flush") {
        Decoded::Event(UiEvent::Flush)
    } else {
        Decoded::Unknown
    }
}

} // verus!

verus! {

/// One occurrence of a sub-event inside a `redraw` batch, before decoding.
pub ghost enum Occurrence {
    Call { name: Seq<char>, args: Seq<Value> },
    /// An entry without a sub-event name, or an occurrence that is not a
    /// parameter list.
    BadShape,
}

/// The occurrences of one batch entry `[name, params...]`, in order.
pub open spec fn entry_occurrences(entry: Value) -> Seq<Occurrence> {
    match spec_items(entry) {
        Some(a) => if a.len() >= 1 && spec_text(a[0]) is Some {
            Seq::new(
                (a.len() - 1) as nat,
                |k: int|
                    match spec_items(a[k + 1]) {
                        Some(args) => Occurrence::Call { name: spec_text(a[0])->0, args },
                        None => Occurrence::BadShape,
                    },
            )
        } else {
            seq![Occurrence::BadShape]
        },
        None => seq![Occurrence::BadShape],
    }
}

/// The occurrences of all entries of a batch, entry after entry.
pub open spec fn batch_occurrences(entries: Seq<Value>) -> Seq<Occurrence>
    decreases entries.len(),
{
    if entries.len() == 0 {
        Seq::empty()
    } else {
        batch_occurrences(entries.drop_last()) + entry_occurrences(entries.last())
    }
}

pub open spec fn outcome_of(o: Occurrence, d: Decoded) -> bool {
    match o {
        Occurrence::Call { name, args } => decoded_of(name, args, d),
        Occurrence::BadShape => d is Malformed,
    }
}

pub open spec fn outcomes_of(occ: Seq<Occurrence>, ds: Seq<Decoded>) -> bool {
    &&& ds.len() == occ.len()
    &&& forall|i: int| 0 <= i < occ.len() ==> outcome_of(#[trigger] occ[i], ds[i])
}

fn decode_entry(entry: &Value, out: &mut Vec<Decoded>)
    ensures
        final(out)@.len() == old(out)@.len() + entry_occurrences(*entry).len(),
        final(out)@.subrange(0, old(out)@.len() as int) == old(out)@,
        outcomes_of(entry_occurrences(*entry), final(out)@.subrange(old(out)@.len() as int, final(out)@.len() as int)),
{
    let ghost start = out@.len();
    let ghost occ = entry_occurrences(*entry);
    let a = match value_items(entry) {
        Some(a) => a,
        None => {
            out.push(Decoded::Malformed);
            assert(out@.subrange(start as int, out@.len() as int) =~= seq![Decoded::Malformed]);
            assert(out@.subrange(0, start as int) =~= old(out)@);
            return;
        },
    };
    let name = if a.len() >= 1 {
        match value_text(&a[0]) {
            Some(n) => n,
            None => {
                out.push(Decoded::Malformed);
                assert(out@.subrange(start as int, out@.len() as int) =~= seq![Decoded::Malformed]);
                assert(out@.subrange(0, start as int) =~= old(out)@);
                return;
            },
        }
    } else {
        out.push(Decoded::Malformed);
        assert(out@.subrange(start as int, out@.len() as int) =~= seq![Decoded::Malformed]);
        assert(out@.subrange(0, start as int) =~= old(out)@);
        return;
    };
    let mut k: usize = 1;
    while k < a.len()
        invariant
            1 <= k <= a@.len(),
            spec_items(*entry) == Some(a@),
            spec_text(a@[0]) == Some(name@),
            occ == entry_occurrences(*entry),
            occ.len() == a@.len() - 1,
            out@.len() == start + k - 1,
            out@.subrange(0, start as int) == old(out)@,
            forall|i: int| 0 <= i < k - 1 ==> outcome_of(#[trigger] occ[i], out@[start + i]),
        decreases a@.len() - k,
    {
        let d = match value_items(&a[k]) {
            Some(args) => decode_occurrence(&name, args),
            None => Decoded::Malformed,
        };
        out.push(d);
        assert(out@.subrange(0, start as int) =~= old(out)@);
        k = k + 1;
    }
    let ghost tail = out@.subrange(start as int, out@.len() as int);
    assert forall|i: int| 0 <= i < occ.len() implies outcome_of(#[trigger] occ[i], tail[i]) by {
        assert(tail[i] == out@[start + i]);
    }
}

/// Decodes every occurrence of every entry of a `redraw` batch, in order. A
/// malformed occurrence or entry yields `Malformed` in its place and leaves the
/// others as they are.
pub fn decode_batch(entries: &Vec<Value>) -> (ds: Vec<Decoded>)
    ensures
        outcomes_of(batch_occurrences(entries@), ds@),
{
    let mut out: Vec<Decoded> = Vec::new();
    let mut i: usize = 0;
    while i < entries.len()
        invariant
            i <= entries@.len(),
            outcomes_of(batch_occurrences(entries@.subrange(0, i as int)), out@),
        decreases entries@.len() - i,
    {
        let ghost before = out@;
        let ghost prefix = entries@.subrange(0, i as int);
        decode_entry(&entries[i], &mut out);
        let ghost next = entries@.subrange(0, i + 1);
        assert(next.drop_last() =~= prefix);
        assert(next.last() == entries@[i as int]);
        let ghost eo = entry_occurrences(entries@[i as int]);
        let ghost tail = out@.subrange(before.len() as int, out@.len() as int);
        assert(batch_occurrences(next) == batch_occurrences(prefix) + eo);
        assert forall|j: int| 0 <= j < batch_occurrences(next).len() implies outcome_of(
            #[trigger] batch_occurrences(next)[j], out@[j]) by {
            if j < before.len() {
                assert(out@[j] == out@.subrange(0, before.len() as int)[j]);
            } else {
                assert(out@[j] == tail[j - before.len()]);
            }
        }
        i = i + 1;
    }
    assert(entries@.subrange(0, entries@.len() as int) =~= entries@);
    out
}

} // verus!

verus! {

/// A dropped occurrence, by its position among the occurrences of its batch.
#[derive(Clone, Copy, Debug, PartialEq, Eq, Structural)]
pub enum Diagnostic {
    Malformed(usize),
    Unknown(usize),
}

/// The events among decoding outcomes, in order.
pub open spec fn events_of(ds: Seq<Decoded>) -> Seq<UiEvent>
    decreases ds.len(),
{
    if ds.len() == 0 {
        Seq::empty()
    } else {
        events_of(ds.drop_last()) + match ds.last() {
            Decoded::Event(e) => seq![e],
            _ => Seq::empty(),
        }
    }
}

/// A diagnostic for each outcome that is not an event, in order.
pub open spec fn diagnostics_of(ds: Seq<Decoded>) -> Seq<Diagnostic>
    decreases ds.len(),
{
    if ds.len() == 0 {
        Seq::empty()
    } else {
        diagnostics_of(ds.drop_last()) + match ds.last() {
            Decoded::Malformed => seq![Diagnostic::Malformed((ds.len() - 1) as usize)],
            Decoded::Unknown => seq![Diagnostic::Unknown((ds.len() - 1) as usize)],
            Decoded::Event(_) => Seq::empty(),
        }
    }
}

/// What handing one `redraw` batch over produced.
pub struct Delivery {
    /// Whether the consumer must be woken.
    pub wake: bool,
    pub diagnostics: Vec<Diagnostic>,
}

/// Decodes a `redraw` batch and sends its events, in order, to the channel.
pub fn deliver_batch(entries: &Vec<Value>, chan: &mut EventChannel) -> (r: Delivery)
    ensures
        exists|ds: Seq<Decoded>| {
            &&& outcomes_of(batch_occurrences(entries@), ds)
            &&& final(chan).queue@ == old(chan).queue@ + events_of(ds)
            &&& r.diagnostics@ == diagnostics_of(ds)
            &&& r.wake == (!old(chan).wake_pending && events_of(ds).len() > 0)
        },
        final(chan).wake_pending == (old(chan).wake_pending || r.wake),
{
    let mut ds = decode_batch(entries);
    let ghost all = ds@;
    let ghost q0 = chan.queue@;
    let ghost w0 = chan.wake_pending;
    let mut diags: Vec<Diagnostic> = Vec::new();
    let mut wake = false;
    let mut i: usize = 0;
    let n = ds.len();
    assert(all.subrange(0, 0) =~= Seq::<Decoded>::empty());
    assert(all.subrange(0, all.len() as int) =~= all);
    while i < n
        invariant
            n == all.len(),
            i <= n,
            ds@ == all.subrange(i as int, n as int),
            chan.queue@ == q0 + events_of(all.subrange(0, i as int)),
            diags@ == diagnostics_of(all.subrange(0, i as int)),
            wake == (!w0 && events_of(all.subrange(0, i as int)).len() > 0),
            chan.wake_pending == (w0 || wake),
        decreases n - i,
    {
        let ghost pre = all.subrange(0, i as int);
        let ghost next = all.subrange(0, i + 1);
        assert(next.drop_last() =~= pre);
        assert(next.last() == all[i as int]);
        assert(ds@[0] == all[i as int]);
        let d = ds.remove(0);
        assert(ds@ =~= all.subrange(i + 1, n as int));
        match d {
            Decoded::Event(e) => {
                let w = chan.send(e);
                if w {
                    wake = true;
                }
                assert(chan.queue@ =~= q0 + events_of(next));
            },
            Decoded::Malformed => {
                diags.push(Diagnostic::Malformed(i));
                assert(events_of(next) =~= events_of(pre));
            },
            Decoded::Unknown => {
                diags.push(Diagnostic::Unknown(i));
                assert(events_of(next) =~= events_of(pre));
            },
        }
        i = i + 1;
    }
    Delivery { wake, diagnostics: diags }
}

} // verus!

verus! {

/// Takes one notification from the session. A `redraw` batch is decoded and
/// its events sent to the channel; any other method is left to other handlers
/// (`None`) and the channel is untouched.
pub fn handle_notification(method: &String, params: &Vec<Value>, chan: &mut EventChannel) -> (r: Option<Delivery>)
    ensures
        method@ != "redraw"@ ==> r is None && *final(chan) == *old(chan),
        method@ == "redraw"@ ==> r is Some && exists|ds: Seq<Decoded>| {
            &&& outcomes_of(batch_occurrences(params@), ds)
            &&& final(chan).queue@ == old(chan).queue@ + events_of(ds)
            &&& r->0.diagnostics@ == diagnostics_of(ds)
            &&& r->0.wake == (!old(chan).wake_pending && events_of(ds).len() > 0)
        },
        method@ == "redraw"@ ==> final(chan).wake_pending == (old(chan).wake_pending || r->0.wake),
{
    if text_is(method, "redraw") {
        Some(deliver_batch(params, chan))
    } else {
        None
    }
}

} // verus!

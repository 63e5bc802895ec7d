use vstd::prelude::*;
use std::collections::HashMap;
use crate::event::{HlAttr, ModeInfo, PmenuItem, CmdlineChunk, Tab, UiEvent};
use crate::grid::{Grid, GridView, blank_rows, resized, scrolled, overlay, expand, line_view};

verus! {

broadcast use vstd::std_specs::hash::group_hash_axioms;

#[derive(Clone, Copy, Debug, PartialEq, Eq, Structural)]
pub struct Cursor {
    pub grid: u64,
    pub row: u64,
    pub col: u64,
}

pub struct Popupmenu {
    pub items: Vec<PmenuItem>,
    /// The selected item, or -1 for none.
    pub selected: i64,
    pub row: u64,
    pub col: u64,
    pub grid: u64,
}

pub struct Cmdline {
    pub content: Vec<CmdlineChunk>,
    pub pos: u64,
    pub firstc: String,
    pub prompt: String,
    pub indent: u64,
    pub level: u64,
}

pub struct Tabline {
    pub current: Vec<u8>,
    pub tabs: Vec<Tab>,
}

pub struct Wildmenu {
    pub candidates: Vec<String>,
    /// The selected candidate, or -1 for none.
    pub selected: i64,
}

/// An event that does not fit the current screen state; it is ignored.
#[derive(Clone, Copy, Debug, PartialEq, Eq, Structural)]
pub enum Violation {
    /// The event names a grid that was never sized.
    NoSuchGrid(u64),
    /// A position or region lies outside its grid.
    OutOfBounds,
}

/// The screen as the editor engine has described it so far.
pub struct ScreenState {
    pub grids: HashMap<u64, Grid>,
    pub highlights: HashMap<u64, HlAttr>,
    pub default_fg: i64,
    pub default_bg: i64,
    pub default_sp: i64,
    pub cursor: Cursor,
    pub cursor_style_enabled: bool,
    pub modes: Vec<ModeInfo>,
    pub mode_name: String,
    pub mode_index: u64,
    pub popupmenu: Option<Popupmenu>,
    pub cmdline: Option<Cmdline>,
    pub tabline: Option<Tabline>,
    pub wildmenu: Option<Wildmenu>,
}

pub ghost struct ScreenView {
    pub grids: Map<u64, GridView>,
    pub highlights: Map<u64, HlAttr>,
    pub default_fg: i64,
    pub default_bg: i64,
    pub default_sp: i64,
    pub cursor: Cursor,
    pub cursor_style_enabled: bool,
    pub modes: Seq<ModeInfo>,
    pub mode_name: Seq<char>,
    pub mode_index: u64,
    pub popupmenu: Option<Popupmenu>,
    pub cmdline: Option<Cmdline>,
    pub tabline: Option<Tabline>,
    pub wildmenu: Option<Wildmenu>,
}

impl View for ScreenState {
    type V = ScreenView;

    open spec fn view(&self) -> ScreenView {
        ScreenView {
            grids: self.grids@.map_values(|g: Grid| g@),
            highlights: self.highlights@,
            default_fg: self.default_fg,
            default_bg: self.default_bg,
            default_sp: self.default_sp,
            cursor: self.cursor,
            cursor_style_enabled: self.cursor_style_enabled,
            modes: self.modes@,
            mode_name: self.mode_name@,
            mode_index: self.mode_index,
            popupmenu: self.popupmenu,
            cmdline: self.cmdline,
            tabline: self.tabline,
            wildmenu: self.wildmenu,
        }
    }
}

impl ScreenView {
    /// Every grid is well formed.
    pub open spec fn wf(self) -> bool {
        forall|id: u64| #[trigger] self.grids.contains_key(id) ==> self.grids[id].wf()
    }

    pub open spec fn with_grid(self, id: u64, g: GridView) -> ScreenView {
        ScreenView { grids: self.grids.insert(id, g), ..self }
    }
}

/// A default colour as the protocol sends it: negative means unset.
pub open spec fn colour_of(c: i64) -> Option<u64> {
    if c >= 0 { Some(c as u64) } else { None }
}

/// The attributes that highlight id `id` stands for: id 0, and any id never
/// defined, resolve to the default colours with no style flags.
pub open spec fn resolve(s: ScreenView, id: u64) -> HlAttr {
    if id != 0 && s.highlights.contains_key(id) {
        s.highlights[id]
    } else {
        HlAttr {
            foreground: colour_of(s.default_fg),
            background: colour_of(s.default_bg),
            special: colour_of(s.default_sp),
            reverse: false,
            italic: false,
            bold: false,
            underline: false,
            undercurl: false,
            strikethrough: false,
        }
    }
}

/// The state after one event, or the violation for which it is ignored.
pub open spec fn step(s: ScreenView, e: UiEvent) -> Result<ScreenView, Violation> {
    match e {
        UiEvent::GridLine { grid, row, col, cells } => {
            if !s.grids.contains_key(grid) {
                Err(Violation::NoSuchGrid(grid))
            } else {
                let g = s.grids[grid];
                let exp = expand(line_view(cells@), 0);
                if row < g.height && col + exp.len() <= g.width {
                    Ok(s.with_grid(grid, GridView {
                        rows: g.rows.update(row as int, overlay(g.rows[row as int], col as int, exp)),
                        ..g
                    }))
                } else {
                    Err(Violation::OutOfBounds)
                }
            }
        },
        UiEvent::GridResize { grid, width, height } => {
            if width > usize::MAX || height > usize::MAX {
                Err(Violation::OutOfBounds)
            } else if s.grids.contains_key(grid) {
                Ok(s.with_grid(grid, GridView {
                    width: width as nat,
                    height: height as nat,
                    rows: resized(s.grids[grid].rows, width as nat, height as nat),
                }))
            } else {
                Ok(s.with_grid(grid, GridView {
                    width: width as nat,
                    height: height as nat,
                    rows: blank_rows(width as nat, height as nat),
                }))
            }
        },
        UiEvent::GridClear { grid } => {
            if !s.grids.contains_key(grid) {
                Err(Violation::NoSuchGrid(grid))
            } else {
                let g = s.grids[grid];
                Ok(s.with_grid(grid, GridView { rows: blank_rows(g.width, g.height), ..g }))
            }
        },
        UiEvent::GridScroll { grid, top, bot, left, right, rows, cols } => {
            if !s.grids.contains_key(grid) {
                Err(Violation::NoSuchGrid(grid))
            } else {
                let g = s.grids[grid];
                if top <= bot <= g.height && left <= right <= g.width {
                    Ok(s.with_grid(grid, GridView {
                        rows: scrolled(g.rows, top as int, bot as int, left as int, right as int, rows as int),
                        ..g
                    }))
                } else {
                    Err(Violation::OutOfBounds)
                }
            }
        },
        UiEvent::GridCursorGoto { grid, row, col } => {
            if !s.grids.contains_key(grid) {
                Err(Violation::NoSuchGrid(grid))
            } else if row < s.grids[grid].height && col < s.grids[grid].width {
                Ok(ScreenView { cursor: Cursor { grid, row, col }, ..s })
            } else {
                Err(Violation::OutOfBounds)
            }
        },
        UiEvent::HlAttrDefine { id, attrs } => Ok(ScreenView { highlights: s.highlights.insert(id, attrs), ..s }),
        UiEvent::DefaultColorsSet { fg, bg, sp } => Ok(
            ScreenView { default_fg: fg, default_bg: bg, default_sp: sp, ..s },
        ),
        UiEvent::ModeInfoSet { cursor_style_enabled, modes } => Ok(
            ScreenView { cursor_style_enabled, modes: modes@, ..s },
        ),
        UiEvent::ModeChange { name, index } => Ok(ScreenView { mode_name: name@, mode_index: index, ..s }),
        UiEvent::PopupmenuShow { items, selected, row, col, grid } => Ok(
            ScreenView { popupmenu: Some(Popupmenu { items, selected, row, col, grid }), ..s },
        ),
        UiEvent::PopupmenuSelect { selected } => Ok(
            match s.popupmenu {
                Some(pm) => ScreenView { popupmenu: Some(Popupmenu { selected, ..pm }), ..s },
                None => s,
            },
        ),
        UiEvent::PopupmenuHide => Ok(ScreenView { popupmenu: None, ..s }),
        UiEvent::CmdlineShow { content, pos, firstc, prompt, indent, level } => Ok(
            ScreenView { cmdline: Some(Cmdline { content, pos, firstc, prompt, indent, level }), ..s },
        ),
        UiEvent::CmdlinePos { pos, level } => Ok(
            match s.cmdline {
                Some(c) => ScreenView { cmdline: Some(Cmdline { pos, level, ..c }), ..s },
                None => s,
            },
        ),
        UiEvent::CmdlineHide => Ok(ScreenView { cmdline: None, ..s }),
        UiEvent::TablineUpdate { current, tabs } => Ok(ScreenView { tabline: Some(Tabline { current, tabs }), ..s }),
        UiEvent::WildmenuShow { candidates } => Ok(
            ScreenView { wildmenu: Some(Wildmenu { candidates, selected: -1i64 }), ..s },
        ),
        UiEvent::WildmenuSelect { selected } => Ok(
            match s.wildmenu {
                Some(w) => ScreenView { wildmenu: Some(Wildmenu { selected, ..w }), ..s },
                None => s,
            },
        ),
        UiEvent::WildmenuHide => Ok(ScreenView { wildmenu: None, ..s }),
        UiEvent::Flush => Ok(s),
    }
}


proof fn lemma_reinsert(m: Map<u64, GridView>, k: u64, v: GridView)
    requires
        m.contains_key(k),
    ensures
        m.remove(k).insert(k, v) == m.insert(k, v),
        v == m[k] ==> m.insert(k, v) == m,
{
    assert(m.remove(k).insert(k, v) =~= m.insert(k, v));
    if v == m[k] {
        assert(m.insert(k, v) =~= m);
    }
}

impl ScreenState {
    /// An empty screen: no grids, no highlights, nothing shown.
    pub fn new() -> (s: ScreenState)
        ensures
            s@.wf(),
            s@.grids.is_empty(),
            s@.highlights.is_empty(),
            s@.popupmenu is None,
            s@.cmdline is None,
            s@.tabline is None,
            s@.wildmenu is None,
            s@.default_fg == -1 && s@.default_bg == -1 && s@.default_sp == -1,
            s@.cursor == (Cursor { grid: 0, row: 0, col: 0 }),
            !s@.cursor_style_enabled,
            s@.modes.len() == 0,
            s@.mode_name.len() == 0,
            s@.mode_index == 0,
    {
        let s = ScreenState {
            grids: HashMap::new(),
            highlights: HashMap::new(),
            default_fg: -1,
            default_bg: -1,
            default_sp: -1,
            cursor: Cursor { grid: 0, row: 0, col: 0 },
            cursor_style_enabled: false,
            modes: Vec::new(),
            mode_name: String::new(),
            mode_index: 0,
            popupmenu: None,
            cmdline: None,
            tabline: None,
            wildmenu: None,
        };
        assert(s@.grids =~= Map::<u64, GridView>::empty());
        s
    }

    /// The attributes to draw highlight id `id` with.
    pub fn highlight(&self, id: u64) -> (a: HlAttr)
        ensures
            a == resolve(self@, id),
    {
        if id != 0 {
            match self.highlights.get(&id) {
                Some(a) => return *a,
                None => {},
            }
        }
        HlAttr {
            foreground: if self.default_fg >= 0 { Some(self.default_fg as u64) } else { None },
            background: if self.default_bg >= 0 { Some(self.default_bg as u64) } else { None },
            special: if self.default_sp >= 0 { Some(self.default_sp as u64) } else { None },
            reverse: false,
            italic: false,
            bold: false,
            underline: false,
            undercurl: false,
            strikethrough: false,
        }
    }

    /// Takes grid `id` out of the table to work on it.
    fn take_grid(&mut self, id: u64) -> (g: Option<Grid>)
        requires
            old(self)@.wf(),
        ensures
            match g {
                Some(g) => old(self)@.grids.contains_key(id) && g@ == old(self)@.grids[id] && g@.wf()
                    && final(self)@ == (ScreenView { grids: old(self)@.grids.remove(id), ..old(self)@ }),
                None => !old(self)@.grids.contains_key(id) && final(self)@ == old(self)@,
            },
            final(self)@.wf(),
    {
        let ghost before = self.grids@;
        let g = self.grids.remove(&id);
        assert(self.grids@.map_values(|g: Grid| g@) =~= before.map_values(|g: Grid| g@).remove(id));
        if g.is_some() {
            assert(before.contains_key(id));
            assert(before.map_values(|g: Grid| g@)[id] == before[id]@);
            assert(old(self)@.grids.contains_key(id));
            assert(old(self)@.grids[id].wf());
            assert(g->0 == before[id]);
        } else {
            assert(self.grids@ =~= before);
        }
        g
    }

    /// Puts grid `id` back.
    fn put_grid(&mut self, id: u64, g: Grid)
        requires
            old(self)@.wf(),
            g@.wf(),
        ensures
            final(self)@ == old(self)@.with_grid(id, g@),
            final(self)@.wf(),
    {
        let ghost before = self.grids@;
        self.grids.insert(id, g);
        assert(self.grids@.map_values(|g: Grid| g@) =~= before.map_values(|g: Grid| g@).insert(id, g@));
    }

    fn apply_grid_line(&mut self, grid: u64, row: u64, col: u64, cells: &Vec<crate::grid::LineCell>) -> (r: Result<(), Violation>)
        requires
            old(self)@.wf(),
        ensures
            final(self)@.wf(),
            match step(old(self)@, UiEvent::GridLine { grid, row, col, cells: *cells }) {
                Ok(v) => r is Ok && final(self)@ == v,
                Err(x) => r == Err::<(), Violation>(x) && final(self)@ == old(self)@,
            },
    {
        let ghost s0 = self@;
        match self.take_grid(grid) {
            None => Err(Violation::NoSuchGrid(grid)),
            Some(mut g) => {
                let ok = g.put_line(row, col, cells);
                proof { lemma_reinsert(s0.grids, grid, g@); }
                self.put_grid(grid, g);
                if ok {
                    Ok(())
                } else {
                    Err(Violation::OutOfBounds)
                }
            },
        }
    }

    fn apply_grid_resize(&mut self, grid: u64, width: u64, height: u64) -> (r: Result<(), Violation>)
        requires
            old(self)@.wf(),
        ensures
            final(self)@.wf(),
            match step(old(self)@, UiEvent::GridResize { grid, width, height }) {
                Ok(v) => r is Ok && final(self)@ == v,
                Err(x) => r == Err::<(), Violation>(x) && final(self)@ == old(self)@,
            },
    {
        if width > usize::MAX as u64 || height > usize::MAX as u64 {
            return Err(Violation::OutOfBounds);
        }
        let ghost s0 = self@;
        match self.take_grid(grid) {
            None => {
                let g = Grid::new(width as usize, height as usize);
                self.put_grid(grid, g);
            },
            Some(mut g) => {
                g.resize(width as usize, height as usize);
                proof { lemma_reinsert(s0.grids, grid, g@); }
                self.put_grid(grid, g);
            },
        }
        Ok(())
    }

    fn apply_grid_clear(&mut self, grid: u64) -> (r: Result<(), Violation>)
        requires
            old(self)@.wf(),
        ensures
            final(self)@.wf(),
            match step(old(self)@, UiEvent::GridClear { grid }) {
                Ok(v) => r is Ok && final(self)@ == v,
                Err(x) => r == Err::<(), Violation>(x) && final(self)@ == old(self)@,
            },
    {
        let ghost s0 = self@;
        match self.take_grid(grid) {
            None => Err(Violation::NoSuchGrid(grid)),
            Some(mut g) => {
                g.clear();
                proof { lemma_reinsert(s0.grids, grid, g@); }
                self.put_grid(grid, g);
                Ok(())
            },
        }
    }

    fn apply_grid_scroll(&mut self, grid: u64, top: u64, bot: u64, left: u64, right: u64, rows: i64, cols: i64) -> (r: Result<(), Violation>)
        requires
            old(self)@.wf(),
        ensures
            final(self)@.wf(),
            match step(old(self)@, UiEvent::GridScroll { grid, top, bot, left, right, rows, cols }) {
                Ok(v) => r is Ok && final(self)@ == v,
                Err(x) => r == Err::<(), Violation>(x) && final(self)@ == old(self)@,
            },
    {
        let ghost s0 = self@;
        match self.take_grid(grid) {
            None => Err(Violation::NoSuchGrid(grid)),
            Some(mut g) => {
                let ok = g.scroll(top, bot, left, right, rows);
                proof { lemma_reinsert(s0.grids, grid, g@); }
                self.put_grid(grid, g);
                if ok {
                    Ok(())
                } else {
                    Err(Violation::OutOfBounds)
                }
            },
        }
    }

    fn apply_cursor_goto(&mut self, grid: u64, row: u64, col: u64) -> (r: Result<(), Violation>)
        requires
            old(self)@.wf(),
        ensures
            final(self)@.wf(),
            match step(old(self)@, UiEvent::GridCursorGoto { grid, row, col }) {
                Ok(v) => r is Ok && final(self)@ == v,
                Err(x) => r == Err::<(), Violation>(x) && final(self)@ == old(self)@,
            },
    {
        match self.grids.get(&grid) {
            None => Err(Violation::NoSuchGrid(grid)),
            Some(g) => {
                assert(self@.grids[grid] == g@);
                if row < g.height as u64 && col < g.width as u64 {
                    self.cursor = Cursor { grid, row, col };
                    Ok(())
                } else {
                    Err(Violation::OutOfBounds)
                }
            },
        }
    }

    /// Applies one event. A violation leaves the state as it was. Returns
    /// `Ok(true)` for a flush, the one event that asks for a paint.
    pub fn apply(&mut self, e: UiEvent) -> (r: Result<bool, Violation>)
        requires
            old(self)@.wf(),
        ensures
            final(self)@.wf(),
            match step(old(self)@, e) {
                Ok(v) => r == Ok::<bool, Violation>(e is Flush) && final(self)@ == v,
                Err(x) => r == Err::<bool, Violation>(x) && final(self)@ == old(self)@,
            },
    {
        let ghost s0 = self@;
        let ghost e0 = e;
        match e {
            UiEvent::GridLine { grid, row, col, cells } => {
                match self.apply_grid_line(grid, row, col, &cells) {
                    Ok(()) => Ok(false),
                    Err(x) => Err(x),
                }
            },
            UiEvent::GridResize { grid, width, height } => {
                match self.apply_grid_resize(grid, width, height) {
                    Ok(()) => Ok(false),
                    Err(x) => Err(x),
                }
            },
            UiEvent::GridClear { grid } => {
                match self.apply_grid_clear(grid) {
                    Ok(()) => Ok(false),
                    Err(x) => Err(x),
                }
            },
            UiEvent::GridScroll { grid, top, bot, left, right, rows, cols } => {
                match self.apply_grid_scroll(grid, top, bot, left, right, rows, cols) {
                    Ok(()) => Ok(false),
                    Err(x) => Err(x),
                }
            },
            UiEvent::GridCursorGoto { grid, row, col } => {
                match self.apply_cursor_goto(grid, row, col) {
                    Ok(()) => Ok(false),
                    Err(x) => Err(x),
                }
            },
            UiEvent::HlAttrDefine { id, attrs } => {
                self.highlights.insert(id, attrs);
                Ok(false)
            },
            UiEvent::DefaultColorsSet { fg, bg, sp } => {
                self.default_fg = fg;
                self.default_bg = bg;
                self.default_sp = sp;
                Ok(false)
            },
            UiEvent::ModeInfoSet { cursor_style_enabled, modes } => {
                self.cursor_style_enabled = cursor_style_enabled;
                self.modes = modes;
                Ok(false)
            },
            UiEvent::ModeChange { name, index } => {
                self.mode_name = name;
                self.mode_index = index;
                Ok(false)
            },
            UiEvent::PopupmenuShow { items, selected, row, col, grid } => {
                self.popupmenu = Some(Popupmenu { items, selected, row, col, grid });
                Ok(false)
            },
            UiEvent::PopupmenuSelect { selected } => {
                match self.popupmenu.take() {
                    Some(pm) => {
                        self.popupmenu = Some(Popupmenu { selected, ..pm });
                    },
                    None => {},
                }
                Ok(false)
            },
            UiEvent::PopupmenuHide => {
                self.popupmenu = None;
                Ok(false)
            },
            UiEvent::CmdlineShow { content, pos, firstc, prompt, indent, level } => {
                self.cmdline = Some(Cmdline { content, pos, firstc, prompt, indent, level });
                Ok(false)
            },
            UiEvent::CmdlinePos { pos, level } => {
                match self.cmdline.take() {
                    Some(c) => {
                        self.cmdline = Some(Cmdline { pos, level, ..c });
                    },
                    None => {},
                }
                Ok(false)
            },
            UiEvent::CmdlineHide => {
                self.cmdline = None;
                Ok(false)
            },
            UiEvent::TablineUpdate { current, tabs } => {
                self.tabline = Some(Tabline { current, tabs });
                Ok(false)
            },
            UiEvent::WildmenuShow { candidates } => {
                self.wildmenu = Some(Wildmenu { candidates, selected: -1 });
                Ok(false)
            },
            UiEvent::WildmenuSelect { selected } => {
                match self.wildmenu.take() {
                    Some(w) => {
                        self.wildmenu = Some(Wildmenu { selected, ..w });
                    },
                    None => {},
                }
                Ok(false)
            },
            UiEvent::WildmenuHide => {
                self.wildmenu = None;
                Ok(false)
            },
            UiEvent::Flush => Ok(true),
        }
    }
}

} // verus!

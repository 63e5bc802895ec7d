use vstd::prelude::*;
use crate::grid::LineCell;

verus! {

/// Colours and style flags of one highlight id. A colour is `None` where the
/// default colour applies.
#[derive(Clone, Copy, Debug, PartialEq, Eq, Structural)]
pub struct HlAttr {
    pub foreground: Option<u64>,
    pub background: Option<u64>,
    pub special: Option<u64>,
    pub reverse: bool,
    pub italic: bool,
    pub bold: bool,
    pub underline: bool,
    pub undercurl: bool,
    pub strikethrough: bool,
}

/// How the cursor is drawn in one mode.
#[derive(Clone, Copy, Debug, PartialEq, Eq, Structural)]
pub struct ModeInfo {
    /// 0 block, 1 horizontal, 2 vertical; `None` where the mode leaves it unset.
    pub cursor_shape: Option<u64>,
    pub cell_percentage: Option<u64>,
    pub blinkwait: Option<u64>,
    pub blinkon: Option<u64>,
    pub blinkoff: Option<u64>,
    pub attr_id: Option<u64>,
}

/// One completion item of the popup menu.
pub struct PmenuItem {
    pub word: String,
    pub kind: String,
    pub menu: String,
    pub info: String,
}

/// One chunk of command-line content with its highlight id.
pub struct CmdlineChunk {
    pub hl: u64,
    pub text: String,
}

/// One tab of the tab line: the payload of its handle, and its name.
pub struct Tab {
    pub handle: Vec<u8>,
    pub name: String,
}

/// A decoded, validated screen update.
pub enum UiEvent {
    GridLine { grid: u64, row: u64, col: u64, cells: Vec<LineCell> },
    GridResize { grid: u64, width: u64, height: u64 },
    GridClear { grid: u64 },
    GridScroll { grid: u64, top: u64, bot: u64, left: u64, right: u64, rows: i64, cols: i64 },
    GridCursorGoto { grid: u64, row: u64, col: u64 },
    HlAttrDefine { id: u64, attrs: HlAttr },
    DefaultColorsSet { fg: i64, bg: i64, sp: i64 },
    ModeInfoSet { cursor_style_enabled: bool, modes: Vec<ModeInfo> },
    ModeChange { name: String, index: u64 },
    PopupmenuShow { items: Vec<PmenuItem>, selected: i64, row: u64, col: u64, grid: u64 },
    PopupmenuSelect { selected: i64 },
    PopupmenuHide,
    CmdlineShow { content: Vec<CmdlineChunk>, pos: u64, firstc: String, prompt: String, indent: u64, level: u64 },
    CmdlinePos { pos: u64, level: u64 },
    CmdlineHide,
    TablineUpdate { current: Vec<u8>, tabs: Vec<Tab> },
    WildmenuShow { candidates: Vec<String> },
    WildmenuSelect { selected: i64 },
    WildmenuHide,
    Flush,
}

impl UiEvent {
    pub fn is_flush(&self) -> (r: bool)
        ensures
            r == (*self is Flush),
    {
        match self {
            UiEvent::Flush => true,
            _ => false,
        }
    }
}

} // verus!

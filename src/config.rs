use vstd::prelude::*;

verus! {

/// The UI options the front-end attaches with: which surfaces the engine hands
/// over instead of drawing them into a grid.
#[derive(Clone, Copy, Debug, PartialEq, Eq, Structural)]
pub struct AttachOptions {
    pub rgb: bool,
    pub linegrid: bool,
    pub popupmenu: bool,
    pub tabline: bool,
    pub cmdline: bool,
    pub wildmenu: bool,
}

/// Colours and the line grid are always on, as is the wildmenu; each of the
/// popup menu, tab line and command line is externalized unless disabled.
pub fn attach_options(disable_popupmenu: bool, disable_tabline: bool, disable_cmdline: bool) -> (o: AttachOptions)
    ensures
        o == (AttachOptions {
            rgb: true,
            linegrid: true,
            popupmenu: !disable_popupmenu,
            tabline: !disable_tabline,
            cmdline: !disable_cmdline,
            wildmenu: true,
        }),
{
    AttachOptions {
        rgb: true,
        linegrid: true,
        popupmenu: !disable_popupmenu,
        tabline: !disable_tabline,
        cmdline: !disable_cmdline,
        wildmenu: true,
    }
}

} // verus!

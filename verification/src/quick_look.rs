//! Quick Look: while the system's viewer shows the pinned file, the window
//! steps down from the top so that it does not cover the viewer, and goes
//! back on top when the viewer is closed.

use vstd::prelude::*;

verus! {

/// The level at which a window is stacked.
#[derive(Clone, Copy, Debug, PartialEq, Eq, Structural)]
pub enum WindowLevel {
    /// Above the windows of other programs.
    AlwaysOnTop,
    /// Among the windows of other programs.
    Normal,
}

/// What the program does when Quick Look is asked for: it gives the window
/// the level `level` and shows `path` in the viewer.
#[derive(Debug)]
pub struct QuickLookOrder {
    pub path: String,
    pub level: WindowLevel,
}

/// What an order says.
pub struct QuickLookView {
    pub path: Seq<char>,
    pub level: WindowLevel,
}

/// The order that follows when Quick Look is asked for while `selected`
/// is pinned: the window steps down and the file is shown. Without a
/// pinned file there is none.
pub open spec fn quick_look_order(selected: Option<Seq<char>>) -> Option<QuickLookView> {
    match selected {
        Some(path) => Some(QuickLookView { path, level: WindowLevel::Normal }),
        None => None,
    }
}

/// The level of the window once the viewer is closed.
pub open spec fn level_after_quick_look() -> WindowLevel {
    WindowLevel::AlwaysOnTop
}

impl View for QuickLookOrder {
    type V = QuickLookView;

    open spec fn view(&self) -> QuickLookView {
        QuickLookView { path: self.path@, level: self.level }
    }
}

/// Decides what is done when Quick Look is asked for, `selected` being the
/// pinned file where there is one.
pub fn quick_look(selected: Option<&str>) -> (r: Option<QuickLookOrder>)
    ensures
        match r {
            Some(order) => selected is Some && quick_look_order(Some(selected->0@)) == Some(order@),
            None => selected is None,
        },
{
    match selected {
        Some(path) => Some(QuickLookOrder { path: path.to_owned(), level: WindowLevel::Normal }),
        None => None,
    }
}

/// The level that the window takes once the viewer is closed.
pub fn quick_look_finished() -> (level: WindowLevel)
    ensures
        level == level_after_quick_look(),
{
    WindowLevel::AlwaysOnTop
}

} // verus!

//! The commands that the menu triggers and the names of the events that a
//! window's observers receive.

use vstd::prelude::*;
use vstd::string::*;

use crate::media::chars_of;

verus! {

/// A command of the menu.
#[derive(Clone, Copy, Debug, PartialEq, Eq, Structural)]
pub enum MenuCommand {
    Open,
    NewWindow,
    CloseWindow,
    ResetCache,
    Quit,
    FitNow,
    PreviousFile,
    NextFile,
    AspectLockToggle,
}

impl MenuCommand {
    /// The identifier under which the command is registered in the menu.
    pub open spec fn id(self) -> Seq<char> {
        match self {
            MenuCommand::Open => "open"@,
            MenuCommand::NewWindow => "new_window"@,
            MenuCommand::CloseWindow => "close_window"@,
            MenuCommand::ResetCache => "reset_cache"@,
            MenuCommand::Quit => "quit"@,
            MenuCommand::FitNow => "fit_now"@,
            MenuCommand::PreviousFile => "previous_file"@,
            MenuCommand::NextFile => "next_file"@,
            MenuCommand::AspectLockToggle => "aspect_lock_toggle"@,
        }
    }

    /// The step by which the command moves the active file of a window:
    /// one back, one forward, or none.
    pub open spec fn step(self) -> int {
        match self {
            MenuCommand::PreviousFile => -1,
            MenuCommand::NextFile => 1,
            _ => 0,
        }
    }

    /// The identifier under which the command is registered in the menu.
    pub fn as_str(self) -> (s: &'static str)
        ensures
            s@ == self.id(),
    {
        match self {
            MenuCommand::Open => "open",
            MenuCommand::NewWindow => "new_window",
            MenuCommand::CloseWindow => "close_window",
            MenuCommand::ResetCache => "reset_cache",
            MenuCommand::Quit => "quit",
            MenuCommand::FitNow => "fit_now",
            MenuCommand::PreviousFile => "previous_file",
            MenuCommand::NextFile => "next_file",
            MenuCommand::AspectLockToggle => "aspect_lock_toggle",
        }
    }

    /// The step by which the command moves the active file of a window.
    pub fn navigation_step(self) -> (d: isize)
        ensures
            d == self.step(),
    {
        match self {
            MenuCommand::PreviousFile => -1,
            MenuCommand::NextFile => 1,
            _ => 0,
        }
    }

    /// The command registered under `id`, if there is one.
    pub fn from_id(id: &str) -> (r: Option<MenuCommand>)
        ensures
            match r {
                Some(c) => c.id() == id@,
                None => forall|c: MenuCommand| c.id() != id@,
            },
    {
        if same_text(id, "open") {
            Some(MenuCommand::Open)
        } else if same_text(id, "new_window") {
            Some(MenuCommand::NewWindow)
        } else if same_text(id, "close_window") {
            Some(MenuCommand::CloseWindow)
        } else if same_text(id, "reset_cache") {
            Some(MenuCommand::ResetCache)
        } else if same_text(id, "quit") {
            Some(MenuCommand::Quit)
        } else if same_text(id, "fit_now") {
            Some(MenuCommand::FitNow)
        } else if same_text(id, "previous_file") {
            Some(MenuCommand::PreviousFile)
        } else if same_text(id, "next_file") {
            Some(MenuCommand::NextFile)
        } else if same_text(id, "aspect_lock_toggle") {
            Some(MenuCommand::AspectLockToggle)
        } else {
            None
        }
    }
}

/// Whether two texts are the same, character by character.
pub fn same_text(a: &str, b: &str) -> (r: bool)
    ensures
        r == (a@ == b@),
{
    let x = chars_of(a);
    let y = chars_of(b);
    if x.len() != y.len() {
        return false;
    }
    let mut i: usize = 0;
    while i < x.len()
        invariant
            x@ == a@,
            y@ == b@,
            x@.len() == y@.len(),
            i <= x@.len(),
            forall|j: int| 0 <= j < i ==> x@[j] == y@[j],
        decreases x@.len() - i,
    {
        if x[i] != y[i] {
            return false;
        }
        i = i + 1;
    }
    assert(a@ =~= b@);
    true
}

/// The name of the event that tells a window's observers of its active
/// file, with the index and the number of files.
pub fn active_file_event() -> (name: &'static str)
    ensures
        name@ == "active-file-changed"@,
{
    "active-file-changed"
}

/// The name of the event in its older form, which carries the path alone.
pub fn legacy_file_event() -> (name: &'static str)
    ensures
        name@ == "file-selected"@,
{
    "file-selected"
}

} // verus!

//! The settings document: the last file shown, the aspect lock, and the
//! size of the window with the units in which it was measured.

use vstd::prelude::*;

use crate::media::{is_image, is_image_path};

verus! {

/// The units in which a window size was measured.
#[derive(Clone, Copy, Debug, PartialEq, Eq, Structural)]
pub enum WindowSizeUnits {
    /// Points, independent of the display's scale.
    Logical,
    /// Pixels of the display.
    Physical,
}

/// The size of a window, tagged with its units.
#[derive(Clone, Copy, Debug, PartialEq, Eq, Structural)]
pub struct WindowGeometry {
    pub width: u32,
    pub height: u32,
    pub units: WindowSizeUnits,
}

/// The settings document as it is kept in memory and written to disk.
#[derive(Debug)]
pub struct PersistedState {
    pub last_file: Option<String>,
    pub aspect_lock: bool,
    pub window_w: Option<u32>,
    pub window_h: Option<u32>,
    pub window_size_units: Option<WindowSizeUnits>,
}

/// What a settings document says.
pub struct PersistedView {
    pub last_file: Option<Seq<char>>,
    pub aspect_lock: bool,
    pub window_w: Option<u32>,
    pub window_h: Option<u32>,
    pub window_size_units: Option<WindowSizeUnits>,
}

/// A partial update of the settings: only the fields that are present change.
#[derive(Clone, Copy, Debug)]
pub struct SettingsUpdate {
    pub aspect_lock: Option<bool>,
}

impl PersistedView {
    /// The settings of a first run: no file, no lock, no recorded size.
    pub open spec fn initial() -> PersistedView {
        PersistedView {
            last_file: None,
            aspect_lock: false,
            window_w: None,
            window_h: None,
            window_size_units: None,
        }
    }

    /// The document with a measured geometry merged in. Without a
    /// measurement the recorded size stays as it was.
    pub open spec fn with_geometry(self, geometry: Option<WindowGeometry>) -> PersistedView {
        match geometry {
            Some(g) => PersistedView {
                window_w: Some(g.width),
                window_h: Some(g.height),
                window_size_units: Some(g.units),
                ..self
            },
            None => self,
        }
    }

    /// The document with `path` as the last file shown.
    pub open spec fn with_last_file(self, path: Seq<char>) -> PersistedView {
        PersistedView { last_file: Some(path), ..self }
    }

    /// The document after a partial update.
    pub open spec fn updated(self, update: SettingsUpdate) -> PersistedView {
        match update.aspect_lock {
            Some(v) => PersistedView { aspect_lock: v, ..self },
            None => self,
        }
    }

    /// The size to give a window at start: the recorded one, if both of its
    /// dimensions were recorded. A size recorded without units is in
    /// physical pixels.
    pub open spec fn restored_size(self) -> Option<WindowGeometry> {
        match (self.window_w, self.window_h) {
            (Some(w), Some(h)) => Some(
                WindowGeometry {
                    width: w,
                    height: h,
                    units: match self.window_size_units {
                        Some(u) => u,
                        None => WindowSizeUnits::Physical,
                    },
                },
            ),
            _ => None,
        }
    }

    /// The file to show again at start: the last one, if restoring was asked
    /// for and it is a supported image.
    pub open spec fn file_to_restore(self, load_last_file: bool) -> Option<Seq<char>> {
        match self.last_file {
            Some(p) => if load_last_file && is_image(p) {
                Some(p)
            } else {
                None
            },
            None => None,
        }
    }
}

/// The geometry to record for a window: its logical size where that could
/// be obtained, else its physical size, else none.
pub open spec fn preferred_geometry(
    logical: Option<(u32, u32)>,
    physical: Option<(u32, u32)>,
) -> Option<WindowGeometry> {
    match logical {
        Some(l) => Some(WindowGeometry { width: l.0, height: l.1, units: WindowSizeUnits::Logical }),
        None => match physical {
            Some(p) => Some(
                WindowGeometry { width: p.0, height: p.1, units: WindowSizeUnits::Physical },
            ),
            None => None,
        },
    }
}

/// The state of the aspect lock after its menu item was activated: the
/// opposite of what the item showed, or of the stored setting where the
/// item could not be read.
pub open spec fn toggled_lock(shown: Option<bool>, stored: bool) -> bool {
    match shown {
        Some(checked) => !checked,
        None => !stored,
    }
}

impl View for PersistedState {
    type V = PersistedView;

    open spec fn view(&self) -> PersistedView {
        PersistedView {
            last_file: match self.last_file {
                Some(p) => Some(p@),
                None => None,
            },
            aspect_lock: self.aspect_lock,
            window_w: self.window_w,
            window_h: self.window_h,
            window_size_units: self.window_size_units,
        }
    }
}

impl Default for PersistedState {
    fn default() -> (s: PersistedState)
        ensures
            s@ == PersistedView::initial(),
    {
        PersistedState {
            last_file: None,
            aspect_lock: false,
            window_w: None,
            window_h: None,
            window_size_units: None,
        }
    }
}

impl Clone for PersistedState {
    fn clone(&self) -> (s: PersistedState)
        ensures
            s@ == self@,
    {
        PersistedState {
            last_file: match &self.last_file {
                Some(p) => Some(p.clone()),
                None => None,
            },
            aspect_lock: self.aspect_lock,
            window_w: self.window_w,
            window_h: self.window_h,
            window_size_units: self.window_size_units,
        }
    }
}

impl PersistedState {
    /// The size to give a window at start.
    pub fn restored_size(&self) -> (g: Option<WindowGeometry>)
        ensures
            g == self@.restored_size(),
    {
        match (self.window_w, self.window_h) {
            (Some(w), Some(h)) => Some(
                WindowGeometry {
                    width: w,
                    height: h,
                    units: match self.window_size_units {
                        Some(u) => u,
                        None => WindowSizeUnits::Physical,
                    },
                },
            ),
            _ => None,
        }
    }

    /// The file to show again at start, before its existence is checked.
    pub fn file_to_restore(&self, load_last_file: bool) -> (p: Option<String>)
        ensures
            match p {
                Some(path) => self@.file_to_restore(load_last_file) == Some(path@),
                None => self@.file_to_restore(load_last_file) is None,
            },
    {
        match &self.last_file {
            Some(p) => {
                if load_last_file && is_image_path(p.as_str()) {
                    Some(p.clone())
                } else {
                    None
                }
            },
            None => None,
        }
    }

    /// Applies a partial update.
    pub fn apply_update(&mut self, update: SettingsUpdate)
        ensures
            final(self)@ == old(self)@.updated(update),
    {
        match update.aspect_lock {
            Some(v) => {
                self.aspect_lock = v;
            },
            None => {},
        }
    }
}

/// The document that loading yields: the parsed one, or the settings of a
/// first run where the file was missing, unreadable or malformed.
pub fn load_state(parsed: Option<PersistedState>) -> (s: PersistedState)
    ensures
        s@ == match parsed {
            Some(p) => p@,
            None => PersistedView::initial(),
        },
{
    match parsed {
        Some(p) => p,
        None => PersistedState::default(),
    }
}

/// The geometry to record for a window, from the sizes that could be
/// obtained from it.
pub fn observed_geometry(logical: Option<(u32, u32)>, physical: Option<(u32, u32)>) -> (g: Option<
    WindowGeometry,
>)
    ensures
        g == preferred_geometry(logical, physical),
{
    match logical {
        Some(l) => Some(WindowGeometry { width: l.0, height: l.1, units: WindowSizeUnits::Logical }),
        None => match physical {
            Some(p) => Some(
                WindowGeometry { width: p.0, height: p.1, units: WindowSizeUnits::Physical },
            ),
            None => None,
        },
    }
}

/// The document to write: `st` with the window's geometry merged in.
pub fn save_state(st: PersistedState, geometry: Option<WindowGeometry>) -> (s: PersistedState)
    ensures
        s@ == st@.with_geometry(geometry),
{
    let mut st = st;
    match geometry {
        Some(g) => {
            st.window_w = Some(g.width);
            st.window_h = Some(g.height);
            st.window_size_units = Some(g.units);
        },
        None => {},
    }
    st
}

/// The state of the aspect lock after its menu item was activated.
pub fn toggle_aspect_lock(shown: Option<bool>, stored: bool) -> (lock: bool)
    ensures
        lock == toggled_lock(shown, stored),
{
    match shown {
        Some(checked) => !checked,
        None => !stored,
    }
}

/// Merging a geometry changes neither the last file nor the aspect lock, and
/// a document read back after it was written with a geometry restores that
/// geometry.
pub proof fn lemma_geometry_round_trip(st: PersistedView, g: WindowGeometry)
    ensures
        st.with_geometry(Some(g)).last_file == st.last_file,
        st.with_geometry(Some(g)).aspect_lock == st.aspect_lock,
        st.with_geometry(Some(g)).restored_size() == Some(g),
        st.with_geometry(None) == st,
{
}

} // verus!

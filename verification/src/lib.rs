//! State core of a desktop utility that pins viewer windows always on top.
//!
//! The library holds the rules of the application and none of its windows:
//! which files count as images, the ordered selection of each window, the
//! aspect lock applied while a window is resized, the size a window takes
//! when it is fitted to its image, and the debounced saving of the settings.
//! The program around it performs the window, dialog and disk operations and
//! hands their results in as plain values.

pub mod commands;
pub mod config;
pub mod debounce;
pub mod fit;
pub mod image_data;
pub mod label_map;
pub mod labels;
pub mod media;
pub mod quick_look;
pub mod selection;
pub mod settings;
pub mod state;

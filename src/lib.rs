//! Sorts the exported gallery files of a tray folder and plans how each
//! gallery item is gathered into a folder of its own: file names decode to a
//! type code and an identifier, primary item headers yield a display name, and
//! companions join an item by identifier or by a run of successor identifiers.

pub mod assembly;
pub mod constants;
pub mod hex;
pub mod kinds;
pub mod text;
pub mod tray_files;
pub mod utils;

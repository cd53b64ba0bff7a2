//! An interactive line picker: the lines that match a typed query are
//! listed below it, one of them is selected, and Enter picks it.

pub mod keys;
pub mod matcher;
pub mod picker;
pub mod render;
pub mod screen;

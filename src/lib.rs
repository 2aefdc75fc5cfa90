pub mod ansi;
pub mod buffer;
pub mod control;
pub mod editor;
pub mod input;
pub mod rope;
pub mod statusbar;
pub mod style;

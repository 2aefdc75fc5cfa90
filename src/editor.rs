use vstd::prelude::*;

verus! {

/// The editing mode.
#[derive(Debug, Clone, Copy, PartialEq, Eq, Structural)]
pub enum Mode {
    Normal,
    Insert,
    Select,
}

impl Default for Mode {
    fn default() -> (r: Mode)
        ensures
            r == Mode::Normal,
    {
        Mode::Normal
    }
}

/// A file that a buffer is loaded from.
#[derive(Debug, Clone)]
pub struct File {
    pub is_readonly: bool,
    pub path: String,
}

impl File {
    /// Names the file at `path`; nothing is read yet.
    pub fn open(path: &str, readonly: bool) -> (r: File)
        ensures
            r.path@ == path@,
            r.is_readonly == readonly,
    {
        File { path: path.to_owned(), is_readonly: readonly }
    }
}

/// Where the content of a buffer comes from.
#[derive(Debug, Clone)]
pub enum Source {
    String(String),
    File(File),
}

} // verus!

//! Run configuration: the list of source files a run works on and the flags
//! that choose what a run prints. Collecting paths from the filesystem is the
//! caller's business; the configuration holds them as plain strings.

use vstd::prelude::*;

verus! {

/// The source files to process, in the order they were taken in.
pub struct Config {
    pub files: Vec<String>,
}

impl Config {
    /// Appends one more source file path to the list.
    pub fn load_file_path(&mut self, path: String)
        ensures
            final(self).files@ == old(self).files@.push(path),
    {
        self.files.push(path);
    }
}

/// What a run writes out. Each flag stands for one bit of a small mask;
/// `bits` gives the bit.
pub enum PrintingFlags {
    NoOutput,
    NormalOverwrite,
    PrintLogs,
}

impl PrintingFlags {
    /// The mask bit of this flag.
    pub fn bits(&self) -> (r: u8)
        ensures
            *self is NoOutput ==> r == 1u8,
            *self is NormalOverwrite ==> r == 2u8,
            *self is PrintLogs ==> r == 4u8,
    {
        match *self {
            PrintingFlags::NoOutput => 1u8,
            PrintingFlags::NormalOverwrite => 2u8,
            PrintingFlags::PrintLogs => 4u8,
        }
    }
}

} // verus!

//! The capability interface: what an operation may ask of the host.
//!
//! A host implements `IoBackend`. Only printing and random numbers are
//! required of it. Every other capability falls back to `Unsupported`, which
//! answers that the environment does not support it, or with nothing where
//! the operation has no way to fail.

use crate::value::{Num, Value};
use vstd::prelude::*;
use vstd::string::*;

verus! {

/// What a host without filesystem answers.
pub open spec fn no_file_io() -> Seq<char> {
    "File IO not supported in this environment"@
}

/// What a host without display answers.
pub open spec fn no_image_display() -> Seq<char> {
    "Showing images not supported in this environment"@
}

/// What a host without console input answers.
pub open spec fn no_line_input() -> Seq<char> {
    "Reading lines not supported in this environment"@
}

/// What a host without audio output answers.
pub open spec fn no_audio_output() -> Seq<char> {
    "Playing audio not supported in this environment"@
}

/// The answers of a host that has none of the optional capabilities.
#[derive(Clone, Copy, Debug, Default)]
pub struct Unsupported;

impl Unsupported {
    pub fn show_image(&self, image: image::DynamicImage) -> (r: Result<(), String>)
        ensures
            r matches Err(e) && e@ == no_image_display(),
    {
        Err(String::from_str("Showing images not supported in this environment"))
    }

    pub fn play_audio(&self, wav_bytes: Vec<u8>) -> (r: Result<(), String>)
        ensures
            r matches Err(e) && e@ == no_audio_output(),
    {
        Err(String::from_str("Playing audio not supported in this environment"))
    }

    pub fn scan_line(&self) -> (r: Result<String, String>)
        ensures
            r matches Err(e) && e@ == no_line_input(),
    {
        Err(String::from_str("Reading lines not supported in this environment"))
    }

    pub fn var(&self, name: &str) -> (value: Option<String>)
        ensures
            value is None,
    {
        None
    }

    pub fn args(&self) -> (args: Vec<String>)
        ensures
            args@.len() == 0,
    {
        Vec::new()
    }

    pub fn file_exists(&self, path: &str) -> (exists: bool)
        ensures
            !exists,
    {
        false
    }

    pub fn list_dir(&self, path: &str) -> (r: Result<Vec<String>, String>)
        ensures
            r matches Err(e) && e@ == no_file_io(),
    {
        Err(String::from_str("File IO not supported in this environment"))
    }

    pub fn is_file(&self, path: &str) -> (r: Result<bool, String>)
        ensures
            r matches Err(e) && e@ == no_file_io(),
    {
        Err(String::from_str("File IO not supported in this environment"))
    }

    pub fn read_file(&self, path: &str) -> (r: Result<Vec<u8>, String>)
        ensures
            r matches Err(e) && e@ == no_file_io(),
    {
        Err(String::from_str("File IO not supported in this environment"))
    }

    pub fn write_file(&self, path: &str, contents: Vec<u8>) -> (r: Result<(), String>)
        ensures
            r matches Err(e) && e@ == no_file_io(),
    {
        Err(String::from_str("File IO not supported in this environment"))
    }
}

/// The binary64 bit pattern of the number 1. The patterns below it are
/// those of the numbers from 0 up to, but not including, 1.
pub const ONE_BITS: u64 = 0x3ff0_0000_0000_0000;

/// How the evaluator writes a value as text. Nothing is promised of the
/// text: the array algebra and its formats are the evaluator's.
pub trait Renderer {
    /// The value as a grid, the way `show` prints it.
    fn grid_string(&self, value: &Value) -> String;

    /// The value in its plain form, the way `prin` and `print` print it.
    fn display_string(&self, value: &Value) -> String;
}

/// Whether a result is the error with the given message.
pub open spec fn refused<T>(r: Result<T, String>, message: Seq<char>) -> bool {
    r matches Err(e) && e@ == message
}

/// The effects that an operation may ask of the host.
///
/// Only printing and random numbers are required of a host. Each other
/// capability is optional: a host says which of them it has, none unless it
/// says so, and a method of a capability that the host lacks gives the fixed
/// answer of `Unsupported`.
/// Nothing is promised of what a host answers with a capability that it has:
/// the dispatcher says what it does with any answer.
pub trait IoBackend {
    /// Whether the host can show images.
    open spec fn has_display(&self) -> bool {
        false
    }

    /// Whether the host can play audio.
    open spec fn has_audio(&self) -> bool {
        false
    }

    /// Whether the host can read lines from a console.
    open spec fn has_input(&self) -> bool {
        false
    }

    /// Whether the host has environment variables.
    open spec fn has_vars(&self) -> bool {
        false
    }

    /// Whether the host has process arguments.
    open spec fn has_args(&self) -> bool {
        false
    }

    /// Whether the host has a filesystem.
    open spec fn has_files(&self) -> bool {
        false
    }

    /// Writes text to the console.
    fn print_str(&self, s: &str);

    /// A number drawn uniformly from 0 up to, but not including, 1: its bit
    /// pattern is below that of 1.
    fn rand(&self) -> (n: Num)
        ensures
            n.bits < ONE_BITS,
    ;

    /// Shows an image. A host without display refuses with a fixed message.
    fn show_image(&self, image: image::DynamicImage) -> (r: Result<(), String>)
        ensures
            !self.has_display() ==> refused(r, no_image_display()),
    {
        Unsupported.show_image(image)
    }

    /// Starts to play the audio of a WAV file and returns. A host without
    /// audio output refuses with a fixed message.
    fn play_audio(&self, wav_bytes: Vec<u8>) -> (r: Result<(), String>)
        ensures
            !self.has_audio() ==> refused(r, no_audio_output()),
    {
        Unsupported.play_audio(wav_bytes)
    }

    /// Reads one line from the console. A host without console input
    /// refuses with a fixed message.
    fn scan_line(&self) -> (r: Result<String, String>)
        ensures
            !self.has_input() ==> refused(r, no_line_input()),
    {
        Unsupported.scan_line()
    }

    /// The value of an environment variable, if it is set. On a host without
    /// environment variables none is set.
    fn var(&self, name: &str) -> (value: Option<String>)
        ensures
            !self.has_vars() ==> value is None,
    {
        Unsupported.var(name)
    }

    /// The arguments of the process. A host without process arguments gives
    /// none.
    fn args(&self) -> (args: Vec<String>)
        ensures
            !self.has_args() ==> args@.len() == 0,
    {
        Unsupported.args()
    }

    /// Whether anything exists at a path. On a host without filesystem
    /// nothing does.
    fn file_exists(&self, path: &str) -> (exists: bool)
        ensures
            !self.has_files() ==> !exists,
    {
        Unsupported.file_exists(path)
    }

    /// The paths of the entries of a directory. A host without filesystem
    /// refuses with a fixed message.
    fn list_dir(&self, path: &str) -> (r: Result<Vec<String>, String>)
        ensures
            !self.has_files() ==> refused(r, no_file_io()),
    {
        Unsupported.list_dir(path)
    }

    /// Whether what exists at a path is a file. A host without filesystem
    /// refuses with a fixed message.
    fn is_file(&self, path: &str) -> (r: Result<bool, String>)
        ensures
            !self.has_files() ==> refused(r, no_file_io()),
    {
        Unsupported.is_file(path)
    }

    /// The contents of a file. A host without filesystem refuses with a
    /// fixed message.
    fn read_file(&self, path: &str) -> (r: Result<Vec<u8>, String>)
        ensures
            !self.has_files() ==> refused(r, no_file_io()),
    {
        Unsupported.read_file(path)
    }

    /// Makes a file hold the contents, whether it existed or not. A host
    /// without filesystem refuses with a fixed message.
    fn write_file(&self, path: &str, contents: Vec<u8>) -> (r: Result<(), String>)
        ensures
            !self.has_files() ==> refused(r, no_file_io()),
    {
        Unsupported.write_file(path, contents)
    }
}

} // verus!

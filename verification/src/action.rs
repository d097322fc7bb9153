//! Keyboard input as the session consumes it, and the outside work the
//! session asks for.  The surrounding binary decodes terminal events into
//! `KeyInput`, hands each to the session, and performs the returned
//! `Action`s, feeding their results back through the session's `on_*`
//! methods.

use vstd::prelude::*;

verus! {

/// One decoded key press.
#[derive(Debug, Clone, Copy, PartialEq, Eq, Structural)]
pub enum KeyCode {
    Up,
    Down,
    Enter,
    Esc,
    Backspace,
    Tab,
    Char(char),
    Other,
}

/// A key press with the modifiers the session distinguishes.
#[derive(Debug, Clone, Copy, PartialEq, Eq, Structural)]
pub struct KeyInput {
    pub code: KeyCode,
    pub ctrl: bool,
    pub super_mod: bool,
}

/// Whether a request to index a bucket starts a new stream or keeps the
/// running one.
#[derive(Debug, Clone, Copy, PartialEq, Eq, Structural)]
pub enum IndexDirective {
    Keep,
    Restart,
}

/// Outside work the session asks the surrounding binary to perform.  Index
/// streams and preview tasks carry no actions of their own: the binary
/// reconciles its task handles against the session's `index_key`,
/// `index_generation` and `preview.live` after every step.
#[derive(Debug)]
pub enum Action {
    /// Ensure a store handle for the alias exists, then list its buckets.
    EnterRemote { alias: String },
    /// List one delimiter page of a prefix.
    ListObjects { remote: String, bucket: String, prefix: String },
    /// Fetch the metadata of one object.
    HeadObject { remote: String, bucket: String, key: String },
    /// Delete one object.
    DeleteObject { remote: String, bucket: String, key: String, display_name: String },
    /// Recursively delete everything under a prefix.
    DeletePrefix { remote: String, bucket: String, prefix: String, display_name: String },
    /// Start a download job into the current local directory.
    StartDownload { remote: String, bucket: String, key: String, target_name: String, is_dir: bool },
    /// Fetch the leading bytes of an object for a text preview.
    FetchTextPreview { remote: String, bucket: String, key: String, length: u64 },
    /// Presign the object and hand it to an external player with these
    /// leading arguments.
    PlayMedia { remote: String, bucket: String, key: String, args: Vec<String> },
    /// List the current local directory again.
    ListLocalDir,
    /// Descend into a local subdirectory, then list it.
    LocalEnter { name: String },
    /// Go to the local parent directory, then list it.
    LocalUp,
}

} // verus!

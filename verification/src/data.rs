//! The data model of the session: entries, locations, progress records and
//! the messages that background tasks post to the UI tick.

use vstd::prelude::*;

verus! {

/// Which pane currently has keyboard focus.
#[derive(Debug, Clone, Copy, PartialEq, Eq, Structural)]
pub enum Pane {
    Remotes,
    Browser,
    LocalFs,
}

/// Where the browser currently is; the sole source of truth for navigation.
#[derive(Debug)]
pub enum Location {
    RemoteList,
    BucketList { remote: String },
    ObjectList { remote: String, bucket: String, prefix: String },
}

impl Clone for Location {
    fn clone(&self) -> (res: Self)
        ensures
            res == self,
    {
        match self {
            Location::RemoteList => Location::RemoteList,
            Location::BucketList { remote } => Location::BucketList { remote: remote.clone() },
            Location::ObjectList { remote, bucket, prefix } => Location::ObjectList {
                remote: remote.clone(),
                bucket: bucket.clone(),
                prefix: prefix.clone(),
            },
        }
    }
}

/// A bucket row of the browser.
#[derive(Debug)]
pub struct BucketInfo {
    pub name: String,
    pub creation_date: Option<String>,
}

impl Clone for BucketInfo {
    fn clone(&self) -> (res: Self)
        ensures
            res == self,
    {
        BucketInfo { name: self.name.clone(), creation_date: clone_opt_string(&self.creation_date) }
    }
}

/// An object row of the browser or of the index pool.  `is_dir` rows are
/// synthetic, derived from a common-prefix listing.
#[derive(Debug)]
pub struct ObjectEntry {
    pub key: String,
    pub display_name: String,
    pub size: i64,
    pub last_modified: Option<String>,
    pub is_dir: bool,
}

impl Clone for ObjectEntry {
    fn clone(&self) -> (res: Self)
        ensures
            res == self,
    {
        ObjectEntry {
            key: self.key.clone(),
            display_name: self.display_name.clone(),
            size: self.size,
            last_modified: clone_opt_string(&self.last_modified),
            is_dir: self.is_dir,
        }
    }
}

/// One row of the browser: either a bucket or an object.
#[derive(Debug)]
pub enum Entry {
    Bucket(BucketInfo),
    Object(ObjectEntry),
}

impl Clone for Entry {
    fn clone(&self) -> (res: Self)
        ensures
            res == self,
    {
        match self {
            Entry::Bucket(b) => Entry::Bucket(b.clone()),
            Entry::Object(o) => Entry::Object(o.clone()),
        }
    }
}

/// The name that a row shows in a listing.
pub open spec fn entry_name(e: Entry) -> Seq<char> {
    match e {
        Entry::Bucket(b) => b.name@,
        Entry::Object(o) => o.display_name@,
    }
}

/// The full key a row stands for (a bucket's name, or an object's key).
pub open spec fn entry_key(e: Entry) -> Seq<char> {
    match e {
        Entry::Bucket(b) => b.name@,
        Entry::Object(o) => o.key@,
    }
}

impl Entry {
    pub fn name(&self) -> (r: &str)
        ensures
            r@ == entry_name(*self),
    {
        match self {
            Entry::Bucket(b) => b.name.as_str(),
            Entry::Object(o) => o.display_name.as_str(),
        }
    }

    pub fn key(&self) -> (r: &str)
        ensures
            r@ == entry_key(*self),
    {
        match self {
            Entry::Bucket(b) => b.name.as_str(),
            Entry::Object(o) => o.key.as_str(),
        }
    }
}

/// Full metadata of one object, as a head request reports it.
#[derive(Debug)]
pub struct ObjectMetadata {
    pub key: String,
    pub size: i64,
    pub content_type: Option<String>,
    pub last_modified: Option<String>,
    pub etag: Option<String>,
    pub version_id: Option<String>,
    pub storage_class: Option<String>,
    pub user_metadata: Vec<(String, String)>,
    pub content_encoding: Option<String>,
    pub cache_control: Option<String>,
}

/// The modal delete-confirmation overlay; `selected_yes` defaults to `false`.
#[derive(Debug)]
pub struct DeleteConfirm {
    pub display_name: String,
    pub key: String,
    pub is_dir: bool,
    pub selected_yes: bool,
}

/// One row of the local-filesystem pane.
#[derive(Debug)]
pub struct LocalEntry {
    pub name: String,
    pub is_dir: bool,
    pub size: u64,
}

impl Clone for LocalEntry {
    fn clone(&self) -> (res: Self)
        ensures
            res == self,
    {
        LocalEntry { name: self.name.clone(), is_dir: self.is_dir, size: self.size }
    }
}

/// Aggregate progress of the live download job, as the UI shows it.
#[derive(Debug)]
pub struct DownloadProgress {
    pub filename: String,
    pub bytes_downloaded: u64,
    pub total_bytes: u64,
    pub files_done: usize,
    pub files_total: usize,
    pub complete: bool,
    pub error: Option<String>,
}

/// A progress message posted by a download task.
#[derive(Debug)]
pub struct DownloadMsg {
    pub bytes_downloaded: u64,
    pub total_bytes: u64,
    pub files_done: usize,
    pub files_total: usize,
    pub complete: bool,
    pub error: Option<String>,
}

/// A message posted by the background indexing task.
#[derive(Debug)]
pub enum IndexMsg {
    Batch(Vec<ObjectEntry>),
    Done,
    Error(String),
}

/// A message posted by the background preview task.
#[derive(Debug)]
pub enum PreviewMsg {
    TextReady(String),
    Error(String),
}

/// How a previewable object is shown.
#[derive(Debug, Clone, Copy, PartialEq, Eq, Structural)]
pub enum PreviewKind {
    Image,
    Video,
    Text,
}

/// A point in time, as seconds since the Unix epoch plus nanoseconds within
/// the second.
#[derive(Debug, Clone, Copy, PartialEq, Eq, Structural)]
pub struct Timestamp {
    pub secs: i64,
    pub nanos: u32,
}

/// A bucket record of a raw bucket-list page, before shaping.
#[derive(Debug)]
pub struct RawBucket {
    pub name: Option<String>,
    pub creation_date: Option<Timestamp>,
}

/// An object record of a raw listing page, before shaping.
#[derive(Debug)]
pub struct RawObject {
    pub key: Option<String>,
    pub size: Option<i64>,
    pub last_modified: Option<Timestamp>,
}

/// The generation key of the index pool: which bucket the pool enumerates.
#[derive(Debug)]
pub struct IndexKey {
    pub remote: String,
    pub bucket: String,
}

impl Clone for IndexKey {
    fn clone(&self) -> (res: Self)
        ensures
            res == self,
    {
        IndexKey { remote: self.remote.clone(), bucket: self.bucket.clone() }
    }
}

/// Where an active search draws from when it is index-backed; an empty bucket
/// stands for a bucket-list search.
#[derive(Debug)]
pub struct SearchScope {
    pub remote: String,
    pub bucket: String,
}

impl Clone for SearchScope {
    fn clone(&self) -> (res: Self)
        ensures
            res == self,
    {
        SearchScope { remote: self.remote.clone(), bucket: self.bucket.clone() }
    }
}

/// The entry snapshotted when download mode opens.
#[derive(Debug)]
pub struct DownloadSource {
    pub display_name: String,
    pub key: String,
}

impl Clone for DownloadSource {
    fn clone(&self) -> (res: Self)
        ensures
            res == self,
    {
        DownloadSource { display_name: self.display_name.clone(), key: self.key.clone() }
    }
}

/// State of the preview subsystem; `live` says whether a background preview
/// task currently feeds it.
#[derive(Debug)]
pub struct PreviewState {
    pub current_key: Option<String>,
    pub text_content: Option<String>,
    pub loading: bool,
    pub error: Option<String>,
    pub scroll_offset: usize,
    pub line_count: usize,
    pub live: bool,
}

/// One connection profile: endpoint and credentials of a remote.
#[derive(Debug)]
pub struct AliasConfig {
    pub url: String,
    pub access_key: String,
    pub secret_key: String,
    pub api: Option<String>,
    pub path: Option<String>,
}

impl Clone for AliasConfig {
    fn clone(&self) -> (res: Self)
        ensures
            res == self,
    {
        AliasConfig {
            url: self.url.clone(),
            access_key: self.access_key.clone(),
            secret_key: self.secret_key.clone(),
            api: clone_opt_string(&self.api),
            path: clone_opt_string(&self.path),
        }
    }
}

/// The alias -> connection-profile table read at startup.  Alias names are
/// unique.
#[derive(Debug)]
pub struct McConfig {
    pub version: String,
    pub aliases: Vec<(String, AliasConfig)>,
}

pub fn clone_opt_string(s: &Option<String>) -> (res: Option<String>)
    ensures
        res == s,
{
    match s {
        Some(v) => Some(v.clone()),
        None => None,
    }
}

/// Clone a vector of browser rows, keeping the exact sequence.
pub fn clone_entries(v: &Vec<Entry>) -> (res: Vec<Entry>)
    ensures
        res@ == v@,
{
    let mut out: Vec<Entry> = Vec::new();
    let mut i: usize = 0;
    while i < v.len()
        invariant
            i <= v.len(),
            out@ == v@.take(i as int),
        decreases v.len() - i,
    {
        out.push(v[i].clone());
        i = i + 1;
        proof {
            assert(out@ == v@.take(i as int)) by {
                assert(v@.take(i as int) =~= v@.take(i - 1).push(v@[i - 1]));
            }
        }
    }
    proof {
        assert(v@.take(v@.len() as int) =~= v@);
    }
    out
}

} // verus!

//! The session: the single owner of all UI-visible state.  Every mutation
//! happens here, on the UI tick; background tasks only post messages that the
//! `on_*` and `drain_*` methods apply.

use vstd::prelude::*;
use vstd::relations::sorted_by;
use vstd::string::StringExecFns;
use crate::data::{
    AliasConfig, DeleteConfirm, DownloadProgress, DownloadSource, Entry, IndexKey, LocalEntry,
    Location, McConfig, ObjectEntry, ObjectMetadata, Pane, PreviewState, SearchScope,
};
use crate::sorting::{sort_strings, string_leq};

verus! {

/// The whole session state.  Selections are plain indices; channel ends and
/// task handles live outside, mirrored here by the `*_live` flags and the
/// index generation counter.
pub struct App {
    pub pane: Pane,
    pub remotes: Vec<String>,
    pub remote_selected: Option<usize>,
    pub entries: Vec<Entry>,
    pub browser_selected: Option<usize>,
    pub location: Location,
    pub metadata: Option<ObjectMetadata>,
    pub error: Option<String>,
    pub should_quit: bool,
    pub show_help: bool,
    pub confirm_delete: Option<DeleteConfirm>,
    pub status_message: Option<String>,
    // Search state
    pub search_active: bool,
    pub search_query: String,
    pub search_pool: Vec<ObjectEntry>,
    pub saved_entries: Vec<Entry>,
    pub saved_location: Option<Location>,
    pub pre_search_selection: Option<usize>,
    pub search_context: Option<SearchScope>,
    pub pending_select_key: Option<String>,
    // Background indexing
    pub index_key: Option<IndexKey>,
    pub index_complete: bool,
    pub index_generation: u64,
    // Download / local pane state
    pub download_mode: bool,
    pub local_entries: Vec<LocalEntry>,
    pub local_selected: Option<usize>,
    pub rename_input: Option<String>,
    pub rename_active: bool,
    pub download_source: Option<DownloadSource>,
    pub download_source_is_dir: bool,
    pub download_progress: Option<DownloadProgress>,
    pub download_live: bool,
    // Preview
    pub preview: PreviewState,
    // Connection registry
    pub config: McConfig,
    pub connected: Vec<String>,
}

/// The alias names of the configuration, in table order.
pub open spec fn alias_names(aliases: Seq<(String, AliasConfig)>) -> Seq<String> {
    aliases.map_values(|p: (String, AliasConfig)| p.0)
}

/// Some string of `v` reads `s`.
pub open spec fn contains_string(v: Seq<String>, s: Seq<char>) -> bool {
    exists|i: int| 0 <= i < v.len() && #[trigger] v[i]@ == s
}

/// The first profile whose alias reads `name`.
pub open spec fn find_alias(aliases: Seq<(String, AliasConfig)>, name: Seq<char>) -> Option<
    AliasConfig,
>
    decreases aliases.len(),
{
    if aliases.len() == 0 {
        None
    } else if aliases[0].0@ == name {
        Some(aliases[0].1)
    } else {
        find_alias(aliases.drop_first(), name)
    }
}

/// The index a selection falls back to when nothing is selected.
pub open spec fn sel_index(sel: Option<usize>) -> usize {
    match sel {
        Some(i) => i,
        None => 0,
    }
}

/// A selection clamped into a listing of `len` rows, keeping the numeric
/// index where it still fits.
pub open spec fn clamp_sel(sel: Option<usize>, len: int) -> Option<usize> {
    if len <= 0 {
        None
    } else if sel_index(sel) < len {
        Some(sel_index(sel))
    } else {
        Some((len - 1) as usize)
    }
}

/// The breadcrumb text of a location.
pub open spec fn location_text(loc: Location) -> Seq<char> {
    match loc {
        Location::RemoteList => "Select a remote"@,
        Location::BucketList { remote } => remote@ + " /"@,
        Location::ObjectList { remote, bucket, prefix } => if prefix@.len() == 0 {
            remote@ + " / "@ + bucket@ + " /"@
        } else {
            remote@ + " / "@ + bucket@ + " / "@ + prefix@
        },
    }
}

impl App {
    /// A fresh session over a configuration: remotes sorted, first one
    /// focused, everything else empty and inactive.
    pub fn new(config: McConfig) -> (r: App)
        ensures
            sorted_by(r.remotes@, string_leq()),
            r.remotes@.to_multiset() == alias_names(config.aliases@).to_multiset(),
            r.remotes@.len() == config.aliases@.len(),
            r.remote_selected == (if config.aliases@.len() == 0 {
                Option::<usize>::None
            } else {
                Option::<usize>::Some(0usize)
            }),
            r.pane == Pane::Remotes,
            r.entries@ == Seq::<Entry>::empty(),
            r.browser_selected is None,
            r.location == Location::RemoteList,
            r.metadata is None,
            r.error is None,
            !r.should_quit,
            !r.show_help,
            r.confirm_delete is None,
            r.status_message is None,
            !r.search_active,
            r.search_query@ == Seq::<char>::empty(),
            r.search_pool@ == Seq::<ObjectEntry>::empty(),
            r.saved_entries@ == Seq::<Entry>::empty(),
            r.saved_location is None,
            r.pre_search_selection is None,
            r.search_context is None,
            r.pending_select_key is None,
            r.index_key is None,
            !r.index_complete,
            r.index_generation == 0,
            !r.download_mode,
            r.local_entries@ == Seq::<LocalEntry>::empty(),
            r.local_selected is None,
            r.rename_input is None,
            !r.rename_active,
            r.download_source is None,
            !r.download_source_is_dir,
            r.download_progress is None,
            !r.download_live,
            r.preview.current_key is None,
            r.preview.text_content is None,
            !r.preview.loading,
            r.preview.error is None,
            r.preview.scroll_offset == 0,
            r.preview.line_count == 0,
            !r.preview.live,
            r.config == config,
            r.connected@ == Seq::<String>::empty(),
    {
        let mut names: Vec<String> = Vec::new();
        let mut i: usize = 0;
        proof {
            assert(names@ =~= alias_names(config.aliases@.take(0int)));
        }
        while i < config.aliases.len()
            invariant
                i <= config.aliases@.len(),
                names@ == alias_names(config.aliases@.take(i as int)),
            decreases config.aliases@.len() - i,
        {
            names.push(config.aliases[i].0.clone());
            i = i + 1;
            proof {
                assert(names@ =~= alias_names(config.aliases@.take(i as int))) by {
                    assert(config.aliases@.take(i as int) =~= config.aliases@.take(i - 1).push(
                        config.aliases@[i - 1],
                    ));
                    assert(alias_names(config.aliases@.take(i as int)) =~= alias_names(
                        config.aliases@.take(i - 1),
                    ).push(config.aliases@[i - 1].0));
                }
            }
        }
        proof {
            assert(config.aliases@.take(config.aliases@.len() as int) =~= config.aliases@);
        }
        let remotes = sort_strings(names);
        proof {
            broadcast use vstd::seq_lib::group_to_multiset_ensures;

            assert(remotes@.to_multiset().len() == remotes@.len());
            assert(names@.to_multiset().len() == names@.len());
        }
        let remote_selected: Option<usize> = if remotes.len() == 0 {
            None
        } else {
            Some(0usize)
        };
        App {
            pane: Pane::Remotes,
            remotes,
            remote_selected,
            entries: Vec::new(),
            browser_selected: None,
            location: Location::RemoteList,
            metadata: None,
            error: None,
            should_quit: false,
            show_help: false,
            confirm_delete: None,
            status_message: None,
            search_active: false,
            search_query: String::new(),
            search_pool: Vec::new(),
            saved_entries: Vec::new(),
            saved_location: None,
            pre_search_selection: None,
            search_context: None,
            pending_select_key: None,
            index_key: None,
            index_complete: false,
            index_generation: 0,
            download_mode: false,
            local_entries: Vec::new(),
            local_selected: None,
            rename_input: None,
            rename_active: false,
            download_source: None,
            download_source_is_dir: false,
            download_progress: None,
            download_live: false,
            preview: PreviewState {
                current_key: None,
                text_content: None,
                loading: false,
                error: None,
                scroll_offset: 0,
                line_count: 0,
                live: false,
            },
            config,
            connected: Vec::new(),
        }
    }

    /// How many objects the index pool holds so far.
    pub fn index_object_count(&self) -> (r: usize)
        ensures
            r == self.search_pool@.len(),
    {
        self.search_pool.len()
    }

    /// The profile of an alias, if the configuration names it.
    pub fn alias_config<'a>(&'a self, alias: &str) -> (r: Option<&'a AliasConfig>)
        ensures
            match r {
                Some(c) => find_alias(self.config.aliases@, alias@) == Some(*c),
                None => find_alias(self.config.aliases@, alias@) is None,
            },
    {
        let mut i: usize = 0;
        proof {
            assert(self.config.aliases@.skip(0int) =~= self.config.aliases@);
        }
        while i < self.config.aliases.len()
            invariant
                i <= self.config.aliases@.len(),
                find_alias(self.config.aliases@, alias@) == find_alias(
                    self.config.aliases@.skip(i as int),
                    alias@,
                ),
            decreases self.config.aliases@.len() - i,
        {
            proof {
                assert(self.config.aliases@.skip(i as int)[0] == self.config.aliases@[i as int]);
            }
            if crate::strings::str_eq(self.config.aliases[i].0.as_str(), alias) {
                return Some(&self.config.aliases[i].1);
            }
            proof {
                assert(self.config.aliases@.skip(i as int).drop_first()
                    =~= self.config.aliases@.skip(i + 1));
            }
            i = i + 1;
        }
        None
    }

    /// Whether a store handle for this alias already exists.
    pub fn has_client(&self, alias: &str) -> (r: bool)
        ensures
            r == contains_string(self.connected@, alias@),
    {
        let mut i: usize = 0;
        while i < self.connected.len()
            invariant
                i <= self.connected@.len(),
                forall|k: int| 0 <= k < i ==> #[trigger] self.connected@[k]@ != alias@,
            decreases self.connected@.len() - i,
        {
            if crate::strings::str_eq(self.connected[i].as_str(), alias) {
                return true;
            }
            i = i + 1;
        }
        false
    }

    /// Record that a store handle for this alias now exists.
    pub fn note_client_connected(&mut self, alias: String)
        ensures
            contains_string(old(self).connected@, alias@) ==> *final(self) == *old(self),
            !contains_string(old(self).connected@, alias@) ==> *final(self) == (App {
                connected: final(self).connected,
                ..*old(self)
            }) && final(self).connected@ == old(self).connected@.push(alias),
    {
        if !self.has_client(alias.as_str()) {
            self.connected.push(alias);
        }
    }

    /// Surface a failed connection attempt; nothing else changes.
    pub fn connect_failed(&mut self, detail: &str)
        ensures
            final(self).error is Some,
            final(self).error.unwrap()@ == "Connection failed: "@ + detail@,
            *final(self) == (App { error: final(self).error, ..*old(self) }),
    {
        let mut msg = "Connection failed: ".to_owned();
        msg.append(detail);
        self.error = Some(msg);
    }

    /// Clamp the browser selection into the current listing.
    pub fn fix_selection(&mut self)
        ensures
            final(self).browser_selected == clamp_sel(
                old(self).browser_selected,
                old(self).entries@.len() as int,
            ),
            *final(self) == (App { browser_selected: final(self).browser_selected, ..*old(self) }),
    {
        if self.entries.len() == 0 {
            self.browser_selected = None;
        } else {
            let sel = match self.browser_selected {
                Some(i) => i,
                None => 0,
            };
            let max = self.entries.len() - 1;
            self.browser_selected = Some(if sel < max {
                sel
            } else {
                max
            });
        }
    }

    /// The breadcrumb text of the current location.
    pub fn location_display(&self) -> (r: String)
        ensures
            r@ == location_text(self.location),
    {
        match &self.location {
            Location::RemoteList => "Select a remote".to_owned(),
            Location::BucketList { remote } => {
                let mut s = remote.clone();
                s.append(" /");
                s
            },
            Location::ObjectList { remote, bucket, prefix } => {
                let mut s = remote.clone();
                s.append(" / ");
                s.append(bucket.as_str());
                if prefix.as_str().is_empty() {
                    s.append(" /");
                } else {
                    s.append(" / ");
                    s.append(prefix.as_str());
                }
                s
            },
        }
    }
}

} // verus!

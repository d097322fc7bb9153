//! Navigation: selection movement, pane switching, descending into remotes,
//! buckets and prefixes, going back up, refreshing, and the appliers that
//! take listing results back into the session.

use vstd::prelude::*;
use vstd::string::StringExecFns;
use crate::action::Action;
use crate::data::{Entry, Location, Pane, RawBucket, RawObject, entry_key};
use crate::data::{ObjectEntry, ObjectMetadata};
use crate::indexing::same_index_key;
use crate::listing::{bucket_kept, dir_kept, file_kept, shape_object_listing, shaped_bucket, shaped_dir, shaped_file};
use crate::listing::make_bucket_entries;
use crate::search::{cancel_rel, finish_select_rel};
use crate::session::{App, contains_string};
use crate::strings::{parent_prefix, parent_prefix_of, str_eq};

verus! {

/// The first row whose key reads `key`.
pub open spec fn find_by_key(entries: Seq<Entry>, key: Seq<char>) -> Option<usize>
    decreases entries.len(),
{
    if entries.len() == 0 {
        None
    } else if entry_key(entries[0]) == key {
        Some(0usize)
    } else {
        match find_by_key(entries.drop_first(), key) {
            Some(i) => Some((i + 1) as usize),
            None => None,
        }
    }
}

proof fn lemma_find_by_key_at(entries: Seq<Entry>, key: Seq<char>, i: int)
    requires
        0 <= i < entries.len(),
        forall|k: int| 0 <= k < i ==> entry_key(#[trigger] entries[k]) != key,
        entry_key(entries[i]) == key,
        entries.len() <= usize::MAX,
    ensures
        find_by_key(entries, key) == Some(i as usize),
    decreases i,
{
    if i > 0 {
        assert(forall|k: int|
            0 <= k < i - 1 ==> entry_key(#[trigger] entries.drop_first()[k]) != key);
        assert(entries.drop_first()[i - 1] == entries[i]);
        lemma_find_by_key_at(entries.drop_first(), key, i - 1);
    }
}

proof fn lemma_find_by_key_none(entries: Seq<Entry>, key: Seq<char>)
    requires
        forall|k: int| 0 <= k < entries.len() ==> entry_key(#[trigger] entries[k]) != key,
    ensures
        find_by_key(entries, key) is None,
    decreases entries.len(),
{
    if entries.len() > 0 {
        assert(forall|k: int|
            0 <= k < entries.drop_first().len() ==> entry_key(
                #[trigger] entries.drop_first()[k],
            ) != key);
        lemma_find_by_key_none(entries.drop_first(), key);
    }
}

/// Linear scan for the first row with this key.
pub fn position_by_key(entries: &Vec<Entry>, key: &str) -> (r: Option<usize>)
    ensures
        r == find_by_key(entries@, key@),
{
    let mut i: usize = 0;
    while i < entries.len()
        invariant
            i <= entries@.len(),
            forall|k: int| 0 <= k < i ==> entry_key(#[trigger] entries@[k]) != key@,
        decreases entries@.len() - i,
    {
        if str_eq(entries[i].key(), key) {
            proof {
                lemma_find_by_key_at(entries@, key@, i as int);
            }
            return Some(i);
        }
        i = i + 1;
    }
    proof {
        lemma_find_by_key_none(entries@, key@);
    }
    None
}

/// `e` is the browser row of the shaped bucket record.
pub open spec fn bucket_row(b: RawBucket, e: Entry) -> bool {
    match e {
        Entry::Bucket(info) => shaped_bucket(b, info),
        Entry::Object(_) => false,
    }
}

/// The location a search cancel leaves behind, before a refresh proceeds.
pub open spec fn restored_location(a: App) -> Location {
    if a.search_active {
        match a.saved_location {
            Some(l) => l,
            None => a.location,
        }
    } else {
        a.location
    }
}

pub open spec fn move_up_rel(pre: App, post: App) -> bool {
    &&& (pre.pane == Pane::Remotes ==> post.remote_selected == (match pre.remote_selected {
                Some(i) => if i > 0 {
                    Some((i - 1) as usize)
                } else {
                    Some(i)
                },
                None => None::<usize>,
            }) && post == (App {
                remote_selected: post.remote_selected,
                ..pre
            }))
    &&& (pre.pane == Pane::Browser ==> {
                &&& post.browser_selected == (match pre.browser_selected {
                    Some(i) => if i > 0 {
                        Some((i - 1) as usize)
                    } else {
                        Some(i)
                    },
                    None => None::<usize>,
                })
                &&& post.metadata is None
                &&& post.preview.current_key is None
                &&& !post.preview.live
                &&& post == (App {
                    browser_selected: post.browser_selected,
                    metadata: post.metadata,
                    preview: post.preview,
                    ..pre
                })
            })
    &&& (pre.pane == Pane::LocalFs ==> post.local_selected == (match pre.local_selected {
                Some(i) => if i > 0 {
                    Some((i - 1) as usize)
                } else {
                    Some(i)
                },
                None => None::<usize>,
            }) && post == (App {
                local_selected: post.local_selected,
                ..pre
            }))
}

pub open spec fn move_down_rel(pre: App, post: App) -> bool {
    &&& (pre.pane == Pane::Remotes ==> post.remote_selected == (if
                crate::session::sel_index(pre.remote_selected) + 1 < pre.remotes@.len() {
                Some((crate::session::sel_index(pre.remote_selected) + 1) as usize)
            } else {
                pre.remote_selected
            }) && post == (App {
                remote_selected: post.remote_selected,
                ..pre
            }))
    &&& (pre.pane == Pane::Browser ==> {
                &&& post.browser_selected == (if crate::session::sel_index(
                    pre.browser_selected,
                ) + 1 < pre.entries@.len() {
                    Some((crate::session::sel_index(pre.browser_selected) + 1) as usize)
                } else {
                    pre.browser_selected
                })
                &&& post.metadata is None
                &&& post.preview.current_key is None
                &&& !post.preview.live
                &&& post == (App {
                    browser_selected: post.browser_selected,
                    metadata: post.metadata,
                    preview: post.preview,
                    ..pre
                })
            })
    &&& (pre.pane == Pane::LocalFs ==> post.local_selected == (if
                crate::session::sel_index(pre.local_selected) + 1 < pre.local_entries@.len() {
                Some((crate::session::sel_index(pre.local_selected) + 1) as usize)
            } else {
                pre.local_selected
            }) && post == (App {
                local_selected: post.local_selected,
                ..pre
            }))
}

pub open spec fn switch_pane_rel(pre: App, post: App) -> bool {
    &&& (pre.search_active ==> post == pre)
    &&& (!pre.search_active ==> post.pane == (match pre.pane {
                Pane::Remotes => Pane::Browser,
                Pane::Browser => if pre.download_mode {
                    Pane::LocalFs
                } else {
                    Pane::Remotes
                },
                Pane::LocalFs => Pane::Remotes,
            }) && post == (App { pane: post.pane, ..pre }))
}

pub open spec fn select_rel(pre: App, post: App, act: Option<Action>) -> bool {
    &&& (({
                let cleared = (App {
                    error: None::<String>,
                    status_message: None::<String>,
                    ..pre
                });
                match pre.pane {
                    Pane::Remotes => match pre.remote_selected {
                        Some(i) => if i < pre.remotes@.len() {
                            act matches Some(a) && (a matches Action::EnterRemote { alias }
                                && alias == pre.remotes@[i as int]) && post == cleared
                        } else {
                            act is None && post == cleared
                        },
                        None => act is None && post == cleared,
                    },
                    Pane::LocalFs => act is None && post == cleared,
                    Pane::Browser => match pre.browser_selected {
                        None => act is None && post == cleared,
                        Some(idx) => if idx >= pre.entries@.len() {
                            act is None && post == cleared
                        } else {
                            let entry = pre.entries@[idx as int];
                            if pre.search_active {
                                finish_select_rel(cleared, post, entry, act)
                            } else {
                                match entry {
                                    Entry::Bucket(b) => match pre.location {
                                        Location::BucketList { remote } => enter_prefix_rel(
                                            cleared,
                                            post,
                                            act,
                                            remote,
                                            b.name,
                                            Seq::<char>::empty(),
                                        ),
                                        _ => act is None && post == cleared,
                                    },
                                    Entry::Object(o) => match pre.location {
                                        Location::ObjectList { remote, bucket, prefix } => if o.is_dir {
                                            enter_prefix_rel(
                                                cleared,
                                                post,
                                                act,
                                                remote,
                                                bucket,
                                                o.key@,
                                            )
                                        } else {
                                            if contains_string(pre.connected@, remote@) {
                                                act matches Some(a) && (
                                                a matches Action::HeadObject {
                                                    remote: r,
                                                    bucket: b,
                                                    key: k,
                                                } && r == remote && b == bucket && k == o.key)
                                                    && post == cleared
                                            } else {
                                                post == (App {
                                                    error: post.error,
                                                    ..cleared
                                                }) && (post.error matches Some(m) && m@
                                                    == "Not connected to remote"@) && act is None
                                            }
                                        },
                                        _ => act is None && post == cleared,
                                    },
                                }
                            }
                        },
                    },
                }
            }))
}

pub open spec fn go_back_rel(pre: App, post: App, act: Option<Action>) -> bool {
    &&& (pre.search_active ==> act is None && cancel_rel(pre, post))
    &&& (!pre.search_active ==> ({
                let cleared = (App {
                    error: None::<String>,
                    status_message: None::<String>,
                    metadata: None::<ObjectMetadata>,
                    preview: post.preview,
                    ..pre
                });
                &&& post.preview.current_key is None
                &&& !post.preview.live
                &&& match pre.location {
                    Location::RemoteList => act is None && post == cleared,
                    Location::BucketList { remote } => {
                        &&& act is None
                        &&& post.index_key is None
                        &&& !post.index_complete
                        &&& post.search_pool@ == Seq::<ObjectEntry>::empty()
                        &&& post.location == Location::RemoteList
                        &&& post.entries@ == Seq::<Entry>::empty()
                        &&& post.browser_selected is None
                        &&& post.pane == Pane::Remotes
                        &&& post == (App {
                            index_key: post.index_key,
                            index_complete: post.index_complete,
                            search_pool: post.search_pool,
                            location: post.location,
                            entries: post.entries,
                            browser_selected: post.browser_selected,
                            pane: post.pane,
                            ..cleared
                        })
                    },
                    Location::ObjectList { remote, bucket, prefix } => {
                        if prefix@.len() == 0 {
                            // Leaving the object listing for the bucket list
                            // ends the index stream: no stale generation's
                            // data survives.
                            &&& act matches Some(a) && (a matches Action::EnterRemote { alias }
                                && alias == remote)
                            &&& post.index_key is None
                            &&& !post.index_complete
                            &&& post.search_pool@ == Seq::<ObjectEntry>::empty()
                            &&& post == (App {
                                index_key: post.index_key,
                                index_complete: post.index_complete,
                                search_pool: post.search_pool,
                                ..cleared
                            })
                        } else {
                            enter_prefix_rel(
                                cleared,
                                post,
                                act,
                                remote,
                                bucket,
                                parent_prefix_of(prefix@),
                            )
                        }
                    },
                }
            }))
}

pub open spec fn refresh_rel(pre: App, post: App, act: Option<Action>) -> bool {
    &&& (({
                let there = restored_location(pre);
                match there {
                    Location::RemoteList => act is None,
                    Location::BucketList { remote } => act matches Some(a) && (
                    a matches Action::EnterRemote { alias } && alias == remote),
                    Location::ObjectList { remote, bucket, prefix } => {
                        &&& post.index_key is None || (post.error matches Some(m)
                            && m@ == "Not connected to remote"@)
                        &&& (contains_string(pre.connected@, remote@) ==> (act matches Some(
                            a,
                        ) && (a matches Action::ListObjects { remote: r, bucket: b, prefix: p }
                            && r == remote && b == bucket && p@ == prefix@)))
                        &&& (!contains_string(pre.connected@, remote@) ==> act is None && (
                        post.error matches Some(m) && m@ == "Not connected to remote"@))
                    },
                }
            }))
    &&& (post.location == restored_location(pre))
    &&& (pre.search_active ==> {
                &&& !post.search_active
                &&& post.search_query@ == Seq::<char>::empty()
                &&& post.saved_entries@ == Seq::<Entry>::empty()
                &&& post.saved_location is None
                &&& post.search_context is None
                &&& post.entries@ == pre.saved_entries@
                &&& post.browser_selected == pre.pre_search_selection
                &&& post.pre_search_selection is None
            })
    &&& (!pre.search_active ==> {
                &&& post.entries@ == pre.entries@
                &&& post.browser_selected == pre.browser_selected
                &&& post.search_active == pre.search_active
            })
    &&& (post.error is Some ==> (post.error matches Some(m) && m@
                == "Not connected to remote"@) && restored_location(pre) is ObjectList
        && !contains_string(pre.connected@, restored_location(pre)->ObjectList_remote@))
    &&& (restored_location(pre) is ObjectList ==> post.search_pool@ == Seq::<
        ObjectEntry,
    >::empty() && !post.index_complete)
    &&& (!(restored_location(pre) is ObjectList) ==> post.index_key == pre.index_key && post.search_pool@ == pre.search_pool@)
    &&& post == (App {
        error: post.error,
        search_active: post.search_active,
        search_query: post.search_query,
        search_pool: post.search_pool,
        saved_entries: post.saved_entries,
        saved_location: post.saved_location,
        pre_search_selection: post.pre_search_selection,
        search_context: post.search_context,
        entries: post.entries,
        browser_selected: post.browser_selected,
        location: post.location,
        index_key: post.index_key,
        index_complete: post.index_complete,
        ..pre
    })
}

impl App {
    /// Move the focused pane's selection one row up; in the browser this
    /// also drops the metadata view and the preview.
    pub fn move_up(&mut self)
        ensures
            move_up_rel(*old(self), *final(self)),
    {
        match self.pane {
            Pane::Remotes => {
                let i = match self.remote_selected {
                    Some(i) => i,
                    None => 0,
                };
                if i > 0 {
                    self.remote_selected = Some(i - 1);
                }
            },
            Pane::Browser => {
                let i = match self.browser_selected {
                    Some(i) => i,
                    None => 0,
                };
                if i > 0 {
                    self.browser_selected = Some(i - 1);
                }
                self.metadata = None;
                self.preview.clear();
            },
            Pane::LocalFs => {
                self.local_move_up();
            },
        }
    }

    /// Move the focused pane's selection one row down; in the browser this
    /// also drops the metadata view and the preview.
    pub fn move_down(&mut self)
        ensures
            move_down_rel(*old(self), *final(self)),
    {
        match self.pane {
            Pane::Remotes => {
                let i = match self.remote_selected {
                    Some(i) => i,
                    None => 0,
                };
                let len = self.remotes.len();
                if i < len && i + 1 < len {
                    self.remote_selected = Some(i + 1);
                }
            },
            Pane::Browser => {
                let i = match self.browser_selected {
                    Some(i) => i,
                    None => 0,
                };
                let len = self.entries.len();
                if i < len && i + 1 < len {
                    self.browser_selected = Some(i + 1);
                }
                self.metadata = None;
                self.preview.clear();
            },
            Pane::LocalFs => {
                self.local_move_down();
            },
        }
    }

    /// Cycle the focused pane; a no-op while a search is active, and the
    /// local pane joins the cycle only in download mode.
    pub fn switch_pane(&mut self)
        ensures
            switch_pane_rel(*old(self), *final(self)),
    {
        if self.search_active {
            return ;
        }
        self.pane = match self.pane {
            Pane::Remotes => Pane::Browser,
            Pane::Browser => if self.download_mode {
                Pane::LocalFs
            } else {
                Pane::Remotes
            },
            Pane::LocalFs => Pane::Remotes,
        };
    }

    /// Accept the focused row: a remote is entered, a search hit is
    /// accepted, a bucket or directory row asks for its listing, a plain
    /// object asks for its metadata.
    #[verifier::rlimit(30)]
    pub fn select(&mut self) -> (act: Option<Action>)
        ensures
            select_rel(*old(self), *final(self), act),
    {
        self.error = None;
        self.status_message = None;
        match self.pane {
            Pane::Remotes => {
                let i = match self.remote_selected {
                    Some(i) => i,
                    None => {
                        return None;
                    },
                };
                if i < self.remotes.len() {
                    let alias = self.remotes[i].clone();
                    Some(Action::EnterRemote { alias })
                } else {
                    None
                }
            },
            Pane::Browser => {
                let idx = match self.browser_selected {
                    Some(idx) => idx,
                    None => {
                        return None;
                    },
                };
                if idx >= self.entries.len() {
                    return None;
                }
                let entry = self.entries[idx].clone();
                if self.search_active {
                    return self.finish_search_select(entry);
                }
                match entry {
                    Entry::Bucket(b) => {
                        let remote = match &self.location {
                            Location::BucketList { remote } => remote.clone(),
                            _ => {
                                return None;
                            },
                        };
                        self.enter_prefix_action(remote, b.name, String::new())
                    },
                    Entry::Object(o) => {
                        let (remote, bucket) = match &self.location {
                            Location::ObjectList { remote, bucket, prefix: _ } => (
                                remote.clone(),
                                bucket.clone(),
                            ),
                            _ => {
                                return None;
                            },
                        };
                        if o.is_dir {
                            self.enter_prefix_action(remote, bucket, o.key)
                        } else {
                            if !self.has_client(remote.as_str()) {
                                self.error = Some("Not connected to remote".to_owned());
                                return None;
                            }
                            Some(Action::HeadObject { remote, bucket, key: o.key })
                        }
                    },
                }
            },
            Pane::LocalFs => None,
        }
    }

    /// Ask for one delimiter page, after checking that the remote has a
    /// store handle.
    fn enter_prefix_action(&mut self, remote: String, bucket: String, prefix: String) -> (act:
        Option<Action>)
        ensures
            enter_prefix_rel(*old(self), *final(self), act, remote, bucket, prefix@),
    {
        if !self.has_client(remote.as_str()) {
            self.error = Some("Not connected to remote".to_owned());
            return None;
        }
        Some(Action::ListObjects { remote, bucket, prefix })
    }

    /// Go one level up: an active search is cancelled instead; leaving the
    /// object listing (or the bucket list) ends the index stream; inside a
    /// bucket the parent prefix (or the remote's bucket list) is asked for.
    pub fn go_back(&mut self) -> (act: Option<Action>)
        ensures
            go_back_rel(*old(self), *final(self), act),
    {
        if self.search_active {
            self.cancel_search();
            return None;
        }
        self.error = None;
        self.status_message = None;
        self.metadata = None;
        self.preview.clear();
        let loc = self.location.clone();
        match loc {
            Location::RemoteList => None,
            Location::BucketList { remote: _ } => {
                self.cancel_indexing();
                self.location = Location::RemoteList;
                self.entries = Vec::new();
                self.browser_selected = None;
                self.pane = Pane::Remotes;
                None
            },
            Location::ObjectList { remote, bucket, prefix } => {
                if prefix.as_str().is_empty() {
                    self.cancel_indexing();
                    Some(Action::EnterRemote { alias: remote })
                } else {
                    let parent = parent_prefix(prefix.as_str());
                    self.enter_prefix_action(remote, bucket, parent)
                }
            },
        }
    }

    /// Re-issue the current level's listing; an active search is cancelled
    /// first, and inside a bucket the index stream restarts.
    #[verifier::rlimit(50)]
    pub fn refresh(&mut self) -> (act: Option<Action>)
        ensures
            refresh_rel(*old(self), *final(self), act),
    {
        self.error = None;
        if self.search_active {
            self.cancel_search();
        }
        let loc = self.location.clone();
        let act: Option<Action> = match loc {
            Location::RemoteList => None,
            Location::BucketList { remote } => Some(Action::EnterRemote { alias: remote }),
            Location::ObjectList { remote, bucket, prefix } => {
                self.cancel_indexing();
                self.enter_prefix_action(remote, bucket, prefix)
            },
        };
        act
    }

    /// Apply a bucket-list result: shaped rows and a reset selection on
    /// success, a surfaced error on failure.
    pub fn on_buckets_listed(&mut self, remote: &str, result: Result<Vec<RawBucket>, String>)
        ensures
            match result {
                Ok(raw) => {
                    let kept = raw@.filter(bucket_kept());
                    &&& final(self).entries@.len() == kept.len()
                    &&& forall|i: int|
                        0 <= i < kept.len() ==> bucket_row(
                            #[trigger] kept[i],
                            final(self).entries@[i],
                        )
                    &&& final(self).location matches Location::BucketList { remote: r } && r@
                        == remote@
                    &&& final(self).browser_selected == (if kept.len() == 0 {
                        Option::<usize>::None
                    } else {
                        Option::<usize>::Some(0usize)
                    })
                    &&& final(self).pane == Pane::Browser
                    &&& *final(self) == (App {
                        entries: final(self).entries,
                        location: final(self).location,
                        browser_selected: final(self).browser_selected,
                        pane: final(self).pane,
                        ..*old(self)
                    })
                },
                Err(e) => {
                    &&& final(self).error matches Some(m) && m@ == "Failed to list buckets: "@ + e@
                    &&& *final(self) == (App { error: final(self).error, ..*old(self) })
                },
            },
    {
        match result {
            Ok(raw) => {
                let infos = make_bucket_entries(raw);
                let mut rows: Vec<Entry> = Vec::new();
                let mut i: usize = 0;
                let ghost infos_view = infos@;
                while i < infos.len()
                    invariant
                        i <= infos@.len(),
                        infos@ == infos_view,
                        rows@.len() == i,
                        forall|k: int|
                            0 <= k < i ==> #[trigger] rows@[k] == Entry::Bucket(infos@[k]),
                    decreases infos@.len() - i,
                {
                    rows.push(Entry::Bucket(infos[i].clone()));
                    i = i + 1;
                }
                self.browser_selected = if rows.len() == 0 {
                    None
                } else {
                    Some(0usize)
                };
                self.entries = rows;
                self.location = Location::BucketList { remote: remote.to_owned() };
                self.pane = Pane::Browser;
            },
            Err(e) => {
                let mut m = "Failed to list buckets: ".to_owned();
                m.append(e.as_str());
                self.error = Some(m);
            },
        }
    }

    /// Apply a delimiter-page result: shaped rows, the new location, a reset
    /// (or pending-key) selection, and the index stream decision for the
    /// listed bucket; a failure only surfaces the error, though a pending
    /// search hit is still re-selected in the listing that stayed.
    #[verifier::rlimit(30)]
    pub fn on_objects_listed(
        &mut self,
        remote: &str,
        bucket: &str,
        prefix: &str,
        result: Result<(Vec<String>, Vec<RawObject>), String>,
    )
        ensures
            match result {
                Ok(page) => {
                    let dirs = page.0@.filter(dir_kept(prefix@));
                    let files = page.1@.filter(file_kept(prefix@));
                    &&& final(self).entries@.len() == dirs.len() + files.len()
                    &&& forall|i: int|
                        0 <= i < dirs.len() ==> (final(self).entries@[i] matches Entry::Object(o)
                            && shaped_dir(prefix@, #[trigger] dirs[i], o))
                    &&& forall|i: int|
                        0 <= i < files.len() ==> (final(self).entries@[dirs.len() + i] matches
                            Entry::Object(o) && shaped_file(prefix@, #[trigger] files[i], o))
                    &&& final(self).location matches Location::ObjectList {
                        remote: r,
                        bucket: b,
                        prefix: p,
                    } && r@ == remote@ && b@ == bucket@ && p@ == prefix@
                    &&& final(self).pane == old(self).pane
                    &&& ({
                        let base: Option<usize> = if final(self).entries@.len() == 0 {
                            None
                        } else {
                            Some(0usize)
                        };
                        final(self).browser_selected == (match old(self).pending_select_key {
                            Some(k) => match find_by_key(final(self).entries@, k@) {
                                Some(pos) => Some(pos),
                                None => base,
                            },
                            None => base,
                        })
                    })
                    &&& final(self).pending_select_key is None
                    &&& (same_index_key(old(self).index_key, remote@, bucket@) ==> final(self).index_key == old(self).index_key && final(self).search_pool@ == old(self).search_pool@ && final(self).index_complete == old(self).index_complete
                        && final(self).index_generation == old(self).index_generation)
                    &&& (!same_index_key(old(self).index_key, remote@, bucket@) ==> (final(self).index_key matches Some(k) && k.remote@ == remote@ && k.bucket@ == bucket@)
                        && final(self).search_pool@ == Seq::<ObjectEntry>::empty() && !final(self).index_complete && final(self).index_generation
                        == vstd::wrapping::u64_specs::wrapping_add(
                        old(self).index_generation,
                        1u64,
                    ))
                    &&& *final(self) == (App {
                        entries: final(self).entries,
                        location: final(self).location,
                        browser_selected: final(self).browser_selected,
                        pending_select_key: final(self).pending_select_key,
                        index_key: final(self).index_key,
                        search_pool: final(self).search_pool,
                        index_complete: final(self).index_complete,
                        index_generation: final(self).index_generation,
                        ..*old(self)
                    })
                },
                Err(e) => {
                    &&& final(self).error matches Some(m) && m@ == "Failed to list objects: "@ + e@
                    &&& final(self).pending_select_key is None
                    &&& final(self).browser_selected == (match old(self).pending_select_key {
                        Some(k) => match find_by_key(old(self).entries@, k@) {
                            Some(pos) => Some(pos),
                            None => old(self).browser_selected,
                        },
                        None => old(self).browser_selected,
                    })
                    &&& *final(self) == (App {
                        error: final(self).error,
                        pending_select_key: final(self).pending_select_key,
                        browser_selected: final(self).browser_selected,
                        ..*old(self)
                    })
                },
            },
    {
        let pending = take_pending(&mut self.pending_select_key);
        match result {
            Ok((common_prefixes, contents)) => {
                let shaped = shape_object_listing(prefix, common_prefixes, contents);
                let rows = crate::search::object_rows(&shaped);
                self.browser_selected = if rows.len() == 0 {
                    None
                } else {
                    Some(0usize)
                };
                self.entries = rows;
                self.location = Location::ObjectList {
                    remote: remote.to_owned(),
                    bucket: bucket.to_owned(),
                    prefix: prefix.to_owned(),
                };
                let _ = self.start_indexing(remote, bucket);
                match pending {
                    Some(key) => {
                        match position_by_key(&self.entries, key.as_str()) {
                            Some(pos) => {
                                self.browser_selected = Some(pos);
                            },
                            None => {},
                        }
                    },
                    None => {},
                }
            },
            Err(e) => {
                let mut m = "Failed to list objects: ".to_owned();
                m.append(e.as_str());
                self.error = Some(m);
                match pending {
                    Some(key) => {
                        match position_by_key(&self.entries, key.as_str()) {
                            Some(pos) => {
                                self.browser_selected = Some(pos);
                            },
                            None => {},
                        }
                    },
                    None => {},
                }
            },
        }
    }

    /// Apply a metadata result: shown on success, surfaced on failure.
    pub fn on_metadata(&mut self, result: Result<ObjectMetadata, String>)
        ensures
            match result {
                Ok(meta) => final(self).metadata == Some(meta) && *final(self) == (App {
                    metadata: final(self).metadata,
                    ..*old(self)
                }),
                Err(e) => (final(self).error matches Some(m) && m@ == "Failed to get metadata: "@
                    + e@) && *final(self) == (App { error: final(self).error, ..*old(self) }),
            },
    {
        match result {
            Ok(meta) => {
                self.metadata = Some(meta);
            },
            Err(e) => {
                let mut m = "Failed to get metadata: ".to_owned();
                m.append(e.as_str());
                self.error = Some(m);
            },
        }
    }
}

/// What asking for a prefix's page amounts to: the page is requested when
/// the remote has a store handle, else the error is surfaced and nothing
/// moves.
pub open spec fn enter_prefix_rel(
    pre: App,
    post: App,
    act: Option<Action>,
    remote: String,
    bucket: String,
    prefix: Seq<char>,
) -> bool {
    if contains_string(pre.connected@, remote@) {
        act matches Some(a) && (a matches Action::ListObjects { remote: r, bucket: b, prefix: p }
            && r == remote && b == bucket && p@ == prefix) && post == pre
    } else {
        (post.error matches Some(m) && m@ == "Not connected to remote"@) && act is None && post == (
        App { error: post.error, ..pre })
    }
}

/// Move the pending search-hit key out of its slot, leaving `None`.
fn take_pending(slot: &mut Option<String>) -> (r: Option<String>)
    ensures
        r == *old(slot),
        *final(slot) is None,
{
    let mut tmp: Option<String> = None;
    core::mem::swap(&mut tmp, slot);
    tmp
}

} // verus!

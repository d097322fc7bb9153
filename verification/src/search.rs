//! The search overlay: a live, case-insensitive substring filter over the
//! index pool (inside a bucket) or the loaded listing (remotes and buckets),
//! with a snapshot taken at start and restored verbatim on cancel.

use vstd::prelude::*;
use crate::action::Action;
use crate::data::{Entry, ObjectEntry, SearchScope};
use crate::data::{clone_entries, entry_key, entry_name};
use crate::session::{App, clamp_sel};
use crate::strings::{contains_seq, lower_of, lowercase, parent_prefix, parent_prefix_of, str_contains, str_eq};

verus! {

/// An index-pool record matches when its lowercased key holds the query.
pub open spec fn key_match(q: Seq<char>) -> spec_fn(ObjectEntry) -> bool {
    |o: ObjectEntry| contains_seq(lower_of(o.key@), q)
}

/// A listing row matches when its lowercased display name holds the query.
pub open spec fn name_match(q: Seq<char>) -> spec_fn(Entry) -> bool {
    |e: Entry| contains_seq(lower_of(entry_name(e)), q)
}

/// The index pool shown as browser rows.
pub open spec fn to_object_rows(pool: Seq<ObjectEntry>) -> Seq<Entry> {
    pool.map_values(|o: ObjectEntry| Entry::Object(o))
}

/// The rows an index-backed search shows for a raw (not yet lowercased)
/// query.
pub open spec fn filtered_pool_rows(pool: Seq<ObjectEntry>, rawq: Seq<char>) -> Seq<Entry> {
    to_object_rows(pool.filter(key_match(lower_of(rawq))))
}

/// The rows a listing-backed search shows for a raw query.
pub open spec fn filtered_name_rows(saved: Seq<Entry>, rawq: Seq<char>) -> Seq<Entry> {
    saved.filter(name_match(lower_of(rawq)))
}

/// Every sequence trivially contains the empty needle.
pub proof fn lemma_contains_empty(hay: Seq<char>)
    ensures
        contains_seq(hay, Seq::<char>::empty()),
{
    assert(hay.subrange(0, 0 + Seq::<char>::empty().len() as int) =~= Seq::<char>::empty());
}

/// A filter whose predicate holds of every element keeps the sequence as it
/// is.
pub proof fn lemma_filter_all<A>(s: Seq<A>, p: spec_fn(A) -> bool)
    requires
        forall|i: int| 0 <= i < s.len() ==> p(#[trigger] s[i]),
    ensures
        s.filter(p) == s,
    decreases s.len(),
{
    reveal(Seq::filter);
    if s.len() == 0 {
        assert(s.filter(p) =~= s);
    } else {
        assert(forall|i: int|
            0 <= i < s.drop_last().len() ==> p(#[trigger] s.drop_last()[i]));
        lemma_filter_all(s.drop_last(), p);
        assert(s.filter(p) =~= s.drop_last().push(s.last()));
        assert(s.drop_last().push(s.last()) =~= s);
    }
}

/// Law: filtering is idempotent — filtering an already-filtered sequence with
/// the same predicate is a fixed point.
pub proof fn lemma_filter_idempotent<A>(s: Seq<A>, p: spec_fn(A) -> bool)
    ensures
        s.filter(p).filter(p) == s.filter(p),
{
    broadcast use vstd::seq_lib::group_filter_ensures;

    assert(forall|i: int|
        0 <= i < s.filter(p).len() ==> p(#[trigger] s.filter(p)[i]));
    lemma_filter_all(s.filter(p), p);
}

/// Law: an empty query keeps the whole pool, in order.
pub proof fn lemma_empty_query_keeps_pool(pool: Seq<ObjectEntry>)
    ensures
        pool.filter(key_match(Seq::<char>::empty())) == pool,
{
    assert forall|i: int| 0 <= i < pool.len() implies key_match(Seq::<char>::empty())(
        #[trigger] pool[i],
    ) by {
        lemma_contains_empty(lower_of(pool[i].key@));
    }
    lemma_filter_all(pool, key_match(Seq::<char>::empty()));
}

/// `post` is `pre` right after a search started: the snapshot holds `pre`'s
/// listing, location and selection.
pub open spec fn search_started(pre: App, post: App) -> bool {
    &&& post.search_active
    &&& post.pre_search_selection == pre.browser_selected
    &&& post.saved_entries@ == pre.entries@
    &&& post.saved_location == Some(pre.location)
}

/// The steps of an active search never touch the snapshot.
pub open spec fn keeps_snapshot(a: App, b: App) -> bool {
    &&& b.pre_search_selection == a.pre_search_selection
    &&& b.saved_entries@ == a.saved_entries@
    &&& b.saved_location == a.saved_location
}

/// `post` is `pre` right after a cancel: the snapshot is restored verbatim.
pub open spec fn search_cancelled(pre: App, post: App) -> bool {
    &&& !post.search_active
    &&& post.browser_selected == pre.pre_search_selection
    &&& post.entries@ == pre.saved_entries@
    &&& post.location == (match pre.saved_location {
        Some(l) => l,
        None => pre.location,
    })
}

/// Everything `cancel_search` does, as a relation between the states before
/// and after.
pub open spec fn cancel_rel(pre: App, post: App) -> bool {
    &&& search_cancelled(pre, post)
    &&& post.search_query@ == Seq::<char>::empty()
    &&& post.saved_entries@ == Seq::<Entry>::empty()
    &&& post.saved_location is None
    &&& post.pre_search_selection is None
    &&& post.search_context is None
    &&& post == (App {
        search_active: post.search_active,
        search_query: post.search_query,
        entries: post.entries,
        saved_entries: post.saved_entries,
        location: post.location,
        saved_location: post.saved_location,
        browser_selected: post.browser_selected,
        pre_search_selection: post.pre_search_selection,
        search_context: post.search_context,
        ..pre
    })
}

/// Everything `finish_search_select` does, as a relation between the states
/// before and after, the accepted row, and the action handed out.
pub open spec fn finish_select_rel(pre: App, post: App, entry: Entry, act: Option<Action>) -> bool {
    &&& !post.search_active
    &&& post.search_query@ == Seq::<char>::empty()
    &&& (pre.index_key is Some && pre.search_context is Some ==> {
        let scope = pre.search_context.unwrap();
        &&& act matches Some(a) && a matches Action::ListObjects { remote, bucket, prefix }
            && remote == scope.remote && bucket == scope.bucket && prefix@ == parent_prefix_of(
            entry_key(entry),
        )
        &&& post.pending_select_key matches Some(k) && k@ == entry_key(entry)
        &&& post.saved_entries@ == Seq::<Entry>::empty()
        &&& post.saved_location is None
        &&& post.search_context is None
    })
    &&& (pre.index_key is Some && pre.search_context is None ==> {
        &&& act is None
        &&& post.saved_entries@ == Seq::<Entry>::empty()
        &&& post.saved_location is None
        &&& post.pending_select_key == pre.pending_select_key
    })
    &&& (pre.index_key is None ==> {
        &&& act is None
        &&& post.entries@ == pre.saved_entries@
        &&& post.location == (match pre.saved_location {
            Some(l) => l,
            None => pre.location,
        })
        &&& post.browser_selected == (match find_by_name(pre.saved_entries@, entry_name(entry)) {
            Some(pos) => Some(pos),
            None => pre.browser_selected,
        })
        &&& post.saved_entries@ == Seq::<Entry>::empty()
        &&& post.saved_location is None
        &&& post.search_context is None
    })
    &&& post == (App {
        search_active: post.search_active,
        search_query: post.search_query,
        entries: post.entries,
        saved_entries: post.saved_entries,
        location: post.location,
        saved_location: post.saved_location,
        browser_selected: post.browser_selected,
        search_context: post.search_context,
        pending_select_key: post.pending_select_key,
        ..pre
    })
}

/// Law: however a search proceeds, cancelling it restores the exact listing,
/// location and selection index held before it started.
pub proof fn lemma_cancel_restores_selection(s0: App, s1: App, s2: App, s3: App)
    requires
        search_started(s0, s1),
        keeps_snapshot(s1, s2),
        search_cancelled(s2, s3),
    ensures
        s3.browser_selected == s0.browser_selected,
        s3.entries@ == s0.entries@,
        s3.location == s0.location,
{
}

pub open spec fn start_search_rel(pre: App, post: App) -> bool {
    &&& (search_started(pre, post))
    &&& (post.search_query@ == Seq::<char>::empty())
    &&& (post.pane == crate::data::Pane::Browser)
    &&& (match pre.location {
                crate::data::Location::ObjectList { remote, bucket, prefix } => {
                    &&& post.search_context matches Some(sc) && sc.remote == remote
                        && sc.bucket == bucket
                    &&& post.entries@ == to_object_rows(pre.search_pool@)
                    &&& post.browser_selected == (if pre.search_pool@.len() == 0 {
                        Option::<usize>::None
                    } else {
                        Option::<usize>::Some(0usize)
                    })
                },
                crate::data::Location::BucketList { remote } => {
                    &&& post.search_context matches Some(sc) && sc.remote == remote
                        && sc.bucket@ == Seq::<char>::empty()
                    &&& post.entries@ == pre.entries@
                    &&& post.browser_selected == pre.browser_selected
                },
                crate::data::Location::RemoteList => {
                    &&& post.search_context is None
                    &&& post.entries@ == pre.entries@
                    &&& post.browser_selected == pre.browser_selected
                },
            })
    &&& (post == (App {
                search_active: post.search_active,
                search_query: post.search_query,
                pre_search_selection: post.pre_search_selection,
                saved_entries: post.saved_entries,
                saved_location: post.saved_location,
                pane: post.pane,
                search_context: post.search_context,
                entries: post.entries,
                browser_selected: post.browser_selected,
                ..pre
            }))
}

pub open spec fn search_input_rel(pre: App, post: App, c: char) -> bool {
    &&& (post.search_query@ == pre.search_query@.push(c))
    &&& (pre.index_key is Some ==> post.entries@ == filtered_pool_rows(
                pre.search_pool@,
                pre.search_query@.push(c),
            ))
    &&& (pre.index_key is None ==> post.entries@ == filtered_name_rows(
                pre.saved_entries@,
                pre.search_query@.push(c),
            ))
    &&& (post.browser_selected == clamp_sel(
                pre.browser_selected,
                post.entries@.len() as int,
            ))
    &&& (keeps_snapshot(pre, post))
    &&& (post == (App {
                search_query: post.search_query,
                entries: post.entries,
                browser_selected: post.browser_selected,
                ..pre
            }))
}

pub open spec fn search_backspace_rel(pre: App, post: App) -> bool {
    &&& (post.search_query@ == (if pre.search_query@.len() == 0 {
                pre.search_query@
            } else {
                pre.search_query@.drop_last()
            }))
    &&& (pre.index_key is Some ==> post.entries@ == filtered_pool_rows(
                pre.search_pool@,
                post.search_query@,
            ))
    &&& (pre.index_key is None ==> post.entries@ == filtered_name_rows(
                pre.saved_entries@,
                post.search_query@,
            ))
    &&& (post.browser_selected == clamp_sel(
                pre.browser_selected,
                post.entries@.len() as int,
            ))
    &&& (keeps_snapshot(pre, post))
    &&& (post == (App {
                search_query: post.search_query,
                entries: post.entries,
                browser_selected: post.browser_selected,
                ..pre
            }))
}

impl App {
    /// Open the search overlay: snapshot the listing, location and selection,
    /// and pick the filter source — the index pool inside a bucket, the
    /// loaded listing elsewhere.
    pub fn start_search(&mut self)
        ensures
            start_search_rel(*old(self), *final(self)),
    {
        self.search_active = true;
        self.search_query = String::new();
        self.pre_search_selection = self.browser_selected;
        self.saved_entries = clone_entries(&self.entries);
        self.saved_location = Some(self.location.clone());
        self.pane = crate::data::Pane::Browser;

        match &self.location {
            crate::data::Location::ObjectList { remote, bucket, prefix: _ } => {
                self.search_context = Some(
                    SearchScope { remote: remote.clone(), bucket: bucket.clone() },
                );
                let rows = object_rows(&self.search_pool);
                self.browser_selected = if rows.len() == 0 {
                    None
                } else {
                    Some(0usize)
                };
                self.entries = rows;
            },
            crate::data::Location::BucketList { remote } => {
                self.search_context = Some(
                    SearchScope { remote: remote.clone(), bucket: String::new() },
                );
            },
            crate::data::Location::RemoteList => {
                self.search_context = None;
            },
        }
    }

    /// Close the overlay and restore the snapshot verbatim: listing, location
    /// and the selection index held before the search started.
    pub fn cancel_search(&mut self)
        ensures
            cancel_rel(*old(self), *final(self)),
    {
        self.search_active = false;
        self.search_query = String::new();
        let mut restored: Vec<Entry> = Vec::new();
        core::mem::swap(&mut restored, &mut self.saved_entries);
        self.entries = restored;
        match &self.saved_location {
            Some(l) => {
                self.location = l.clone();
            },
            None => {},
        }
        self.saved_location = None;
        self.browser_selected = self.pre_search_selection;
        self.pre_search_selection = None;
        self.search_context = None;
    }

    /// Re-run the filter over the current query: over the pool's keys when
    /// index-backed, over the snapshot's names otherwise.  The selection
    /// keeps its numeric index, clamped into the new result count.  An empty
    /// query shows the unfiltered source.
    pub fn update_search_filter(&mut self)
        ensures
            old(self).index_key is Some ==> final(self).entries@ == filtered_pool_rows(
                old(self).search_pool@,
                old(self).search_query@,
            ),
            old(self).index_key is None ==> final(self).entries@ == filtered_name_rows(
                old(self).saved_entries@,
                old(self).search_query@,
            ),
            old(self).search_query@.len() == 0 && old(self).index_key is Some
                ==> final(self).entries@ == to_object_rows(old(self).search_pool@),
            old(self).search_query@.len() == 0 && old(self).index_key is None
                ==> final(self).entries@ == old(self).saved_entries@,
            final(self).browser_selected == clamp_sel(
                old(self).browser_selected,
                final(self).entries@.len() as int,
            ),
            *final(self) == (App {
                entries: final(self).entries,
                browser_selected: final(self).browser_selected,
                ..*old(self)
            }),
    {
        let query = lowercase(self.search_query.as_str());
        let ghost rawq = self.search_query@;

        if self.index_key.is_some() {
            if query.as_str().is_empty() {
                proof {
                    lemma_empty_query_keeps_pool(self.search_pool@);
                    assert(lower_of(rawq) =~= Seq::<char>::empty());
                }
                self.entries = object_rows(&self.search_pool);
            } else {
                self.entries = filter_pool_rows(&self.search_pool, query.as_str());
            }
        } else {
            if query.as_str().is_empty() {
                proof {
                    assert forall|i: int| 0 <= i < self.saved_entries@.len() implies name_match(
                        lower_of(rawq),
                    )(#[trigger] self.saved_entries@[i]) by {
                        assert(lower_of(rawq) =~= Seq::<char>::empty());
                        lemma_contains_empty(lower_of(entry_name(self.saved_entries@[i])));
                    }
                    lemma_filter_all(self.saved_entries@, name_match(lower_of(rawq)));
                }
                self.entries = clone_entries(&self.saved_entries);
            } else {
                self.entries = filter_name_rows(&self.saved_entries, query.as_str());
            }
        }

        if self.entries.len() == 0 {
            self.browser_selected = None;
        } else {
            let sel = match self.browser_selected {
                Some(i) => i,
                None => 0,
            };
            let max = self.entries.len() - 1;
            self.browser_selected = Some(if sel < max {
                sel
            } else {
                max
            });
        }
    }

    /// Append one character to the query and re-filter.
    pub fn search_input(&mut self, c: char)
        ensures
            search_input_rel(*old(self), *final(self), c),
    {
        crate::strings::push_char(&mut self.search_query, c);
        self.update_search_filter();
    }

    /// Drop the last character of the query and re-filter.
    pub fn search_backspace(&mut self)
        ensures
            search_backspace_rel(*old(self), *final(self)),
    {
        let _ = crate::strings::pop_char(&mut self.search_query);
        self.update_search_filter();
    }

    /// Accept the selected search hit.  Index-backed: leave the overlay,
    /// remember the hit's key, and ask for the listing of its parent
    /// directory (the row is re-selected when that listing arrives).
    /// Listing-backed: restore the snapshot and re-select the hit by name.
    pub fn finish_search_select(&mut self, entry: Entry) -> (act: Option<Action>)
        ensures
            finish_select_rel(*old(self), *final(self), entry, act),
    {
        self.search_active = false;
        self.search_query = String::new();

        if self.index_key.is_some() {
            let target_key = entry.key().to_owned();
            let scope = take_scope(&mut self.search_context);
            let act: Option<Action> = match scope {
                Some(scope) => {
                    let parent = parent_prefix(target_key.as_str());
                    self.pending_select_key = Some(target_key);
                    Some(
                        Action::ListObjects {
                            remote: scope.remote,
                            bucket: scope.bucket,
                            prefix: parent,
                        },
                    )
                },
                None => None,
            };
            self.saved_entries = Vec::new();
            self.saved_location = None;
            act
        } else {
            let target_name = entry.name().to_owned();
            let mut restored: Vec<Entry> = Vec::new();
            core::mem::swap(&mut restored, &mut self.saved_entries);
            self.entries = restored;
            match &self.saved_location {
                Some(l) => {
                    self.location = l.clone();
                },
                None => {},
            }
            self.saved_location = None;
            match position_by_name(&self.entries, target_name.as_str()) {
                Some(pos) => {
                    self.browser_selected = Some(pos);
                },
                None => {},
            }
            self.search_context = None;
            None
        }
    }
}

/// The first row whose display name reads `name`.
pub open spec fn find_by_name(entries: Seq<Entry>, name: Seq<char>) -> Option<usize>
    decreases entries.len(),
{
    if entries.len() == 0 {
        None
    } else if entry_name(entries[0]) == name {
        Some(0usize)
    } else {
        match find_by_name(entries.drop_first(), name) {
            Some(i) => Some((i + 1) as usize),
            None => None,
        }
    }
}

/// A match at `i` with no earlier match is what `find_by_name` returns.
proof fn lemma_find_by_name_at(entries: Seq<Entry>, name: Seq<char>, i: int)
    requires
        0 <= i < entries.len(),
        forall|k: int| 0 <= k < i ==> entry_name(#[trigger] entries[k]) != name,
        entry_name(entries[i]) == name,
        entries.len() <= usize::MAX,
    ensures
        find_by_name(entries, name) == Some(i as usize),
    decreases i,
{
    if i == 0 {
    } else {
        assert(forall|k: int|
            0 <= k < i - 1 ==> entry_name(#[trigger] entries.drop_first()[k]) != name);
        assert(entries.drop_first()[i - 1] == entries[i]);
        lemma_find_by_name_at(entries.drop_first(), name, i - 1);
    }
}

/// With no match anywhere, `find_by_name` finds nothing.
proof fn lemma_find_by_name_none(entries: Seq<Entry>, name: Seq<char>)
    requires
        forall|k: int| 0 <= k < entries.len() ==> entry_name(#[trigger] entries[k]) != name,
    ensures
        find_by_name(entries, name) is None,
    decreases entries.len(),
{
    if entries.len() > 0 {
        assert(forall|k: int|
            0 <= k < entries.drop_first().len() ==> entry_name(
                #[trigger] entries.drop_first()[k],
            ) != name);
        lemma_find_by_name_none(entries.drop_first(), name);
    }
}

/// Linear scan for the first row with this display name.
pub fn position_by_name(entries: &Vec<Entry>, name: &str) -> (r: Option<usize>)
    ensures
        r == find_by_name(entries@, name@),
{
    let mut i: usize = 0;
    while i < entries.len()
        invariant
            i <= entries@.len(),
            forall|k: int| 0 <= k < i ==> entry_name(#[trigger] entries@[k]) != name@,
        decreases entries@.len() - i,
    {
        if str_eq(entries[i].name(), name) {
            proof {
                lemma_find_by_name_at(entries@, name@, i as int);
            }
            return Some(i);
        }
        i = i + 1;
    }
    proof {
        lemma_find_by_name_none(entries@, name@);
    }
    None
}

/// Move the scope out of the slot, leaving `None`.
fn take_scope(slot: &mut Option<SearchScope>) -> (r: Option<SearchScope>)
    ensures
        r == *old(slot),
        *final(slot) is None,
{
    let mut tmp: Option<SearchScope> = None;
    core::mem::swap(&mut tmp, slot);
    tmp
}

/// The whole pool as browser rows.
pub fn object_rows(pool: &Vec<ObjectEntry>) -> (r: Vec<Entry>)
    ensures
        r@ == to_object_rows(pool@),
{
    let mut out: Vec<Entry> = Vec::new();
    let mut i: usize = 0;
    proof {
        assert(out@ =~= to_object_rows(pool@.take(0int)));
    }
    while i < pool.len()
        invariant
            i <= pool@.len(),
            out@ == to_object_rows(pool@.take(i as int)),
        decreases pool@.len() - i,
    {
        out.push(Entry::Object(pool[i].clone()));
        i = i + 1;
        proof {
            assert(pool@.take(i as int) =~= pool@.take(i - 1).push(pool@[i - 1]));
            assert(to_object_rows(pool@.take(i as int)) =~= to_object_rows(
                pool@.take(i - 1),
            ).push(Entry::Object(pool@[i - 1])));
        }
    }
    proof {
        assert(pool@.take(pool@.len() as int) =~= pool@);
    }
    out
}

/// The pool rows whose lowercased key holds the (already lowercased) query.
fn filter_pool_rows(pool: &Vec<ObjectEntry>, query: &str) -> (r: Vec<Entry>)
    ensures
        r@ == to_object_rows(pool@.filter(key_match(query@))),
{
    let mut out: Vec<Entry> = Vec::new();
    let mut i: usize = 0;
    proof {
        reveal(Seq::filter);
        assert(pool@.take(0int).filter(key_match(query@)) =~= Seq::<ObjectEntry>::empty());
        assert(out@ =~= to_object_rows(pool@.take(0int).filter(key_match(query@))));
    }
    while i < pool.len()
        invariant
            i <= pool@.len(),
            out@ == to_object_rows(pool@.take(i as int).filter(key_match(query@))),
        decreases pool@.len() - i,
    {
        let ghost pre = pool@.take(i as int).filter(key_match(query@));
        proof {
            reveal(Seq::filter);
            assert(pool@.take(i + 1).drop_last() =~= pool@.take(i as int));
            assert(pool@.take(i + 1).last() == pool@[i as int]);
        }
        let lkey = lowercase(pool[i].key.as_str());
        if str_contains(lkey.as_str(), query) {
            out.push(Entry::Object(pool[i].clone()));
            proof {
                assert(pool@.take(i + 1).filter(key_match(query@)) =~= pre.push(pool@[i as int]));
                assert(to_object_rows(pre.push(pool@[i as int])) =~= to_object_rows(pre).push(
                    Entry::Object(pool@[i as int]),
                ));
            }
        } else {
            proof {
                assert(pool@.take(i + 1).filter(key_match(query@)) =~= pre);
            }
        }
        i = i + 1;
    }
    proof {
        assert(pool@.take(pool@.len() as int) =~= pool@);
    }
    out
}

/// The saved rows whose lowercased display name holds the query.
fn filter_name_rows(saved: &Vec<Entry>, query: &str) -> (r: Vec<Entry>)
    ensures
        r@ == saved@.filter(name_match(query@)),
{
    let mut out: Vec<Entry> = Vec::new();
    let mut i: usize = 0;
    proof {
        reveal(Seq::filter);
        assert(saved@.take(0int).filter(name_match(query@)) =~= Seq::<Entry>::empty());
    }
    while i < saved.len()
        invariant
            i <= saved@.len(),
            out@ == saved@.take(i as int).filter(name_match(query@)),
        decreases saved@.len() - i,
    {
        let ghost pre = saved@.take(i as int).filter(name_match(query@));
        proof {
            reveal(Seq::filter);
            assert(saved@.take(i + 1).drop_last() =~= saved@.take(i as int));
            assert(saved@.take(i + 1).last() == saved@[i as int]);
        }
        let lname = lowercase(saved[i].name());
        if str_contains(lname.as_str(), query) {
            out.push(saved[i].clone());
            proof {
                assert(saved@.take(i + 1).filter(name_match(query@)) =~= pre.push(
                    saved@[i as int],
                ));
            }
        } else {
            proof {
                assert(saved@.take(i + 1).filter(name_match(query@)) =~= pre);
            }
        }
        i = i + 1;
    }
    proof {
        assert(saved@.take(saved@.len() as int) =~= saved@);
    }
    out
}

} // verus!

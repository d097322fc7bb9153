//! The delete executor's session side: the confirmation overlay, the
//! decision to delete, the batching of a recursive delete into bulk calls of
//! at most 1000 keys, and the removal of deleted keys from listing and pool.

use vstd::prelude::*;
use vstd::string::StringExecFns;
use crate::action::Action;
use crate::data::{DeleteConfirm, Entry, ObjectEntry, entry_key};
use crate::session::{App, clamp_sel, contains_string};
use crate::strings::{dec_of, is_prefix, str_eq, str_starts_with, u64_to_string};

verus! {

/// Rows that survive deleting one key: everything but that exact key.
pub open spec fn keeps_other_keys(key: Seq<char>) -> spec_fn(Entry) -> bool {
    |e: Entry| entry_key(e) != key
}

pub open spec fn keeps_other_obj_keys(key: Seq<char>) -> spec_fn(ObjectEntry) -> bool {
    |o: ObjectEntry| o.key@ != key
}

/// Rows that survive deleting a prefix: everything whose key does not start
/// with it.  The prefix of a directory row ends in the separator, so sibling
/// keys that merely share the text without it are kept.
pub open spec fn keeps_outside_prefix(prefix: Seq<char>) -> spec_fn(Entry) -> bool {
    |e: Entry| !is_prefix(prefix, entry_key(e))
}

pub open spec fn keeps_outside_obj_prefix(prefix: Seq<char>) -> spec_fn(ObjectEntry) -> bool {
    |o: ObjectEntry| !is_prefix(prefix, o.key@)
}

pub open spec fn request_delete_rel(pre: App, post: App) -> bool {
    &&& (pre.search_active ==> post == pre)
    &&& (!pre.search_active ==> {
                &&& post.status_message is None
                &&& (match pre.browser_selected {
                    Some(idx) => if idx < pre.entries@.len() {
                        match pre.entries@[idx as int] {
                            Entry::Object(o) => {
                                &&& post.confirm_delete matches Some(c)
                                &&& c.display_name == o.display_name
                                &&& c.key == o.key
                                &&& c.is_dir == o.is_dir
                                &&& !c.selected_yes
                                &&& post.error == pre.error
                            },
                            Entry::Bucket(_) => {
                                &&& post.confirm_delete == pre.confirm_delete
                                &&& post.error matches Some(m) && m@
                                    == "Bucket deletion is not supported"@
                            },
                        }
                    } else {
                        post.confirm_delete == pre.confirm_delete && post.error
                            == pre.error
                    },
                    None => post.confirm_delete == pre.confirm_delete
                        && post.error == pre.error,
                })
                &&& post == (App {
                    status_message: post.status_message,
                    confirm_delete: post.confirm_delete,
                    error: post.error,
                    ..pre
                })
            })
}

pub open spec fn toggle_delete_rel(pre: App, post: App) -> bool {
    &&& (match pre.confirm_delete {
                Some(c) => post.confirm_delete matches Some(d) && d.display_name
                    == c.display_name && d.key == c.key && d.is_dir == c.is_dir && d.selected_yes
                    == !c.selected_yes,
                None => post.confirm_delete is None,
            })
    &&& (post == (App { confirm_delete: post.confirm_delete, ..pre }))
}

pub open spec fn confirm_delete_rel(pre: App, post: App, act: Option<Action>) -> bool {
    &&& (post.confirm_delete is None)
    &&& (pre.confirm_delete is None ==> act is None && post == pre)
    &&& (pre.confirm_delete matches Some(c) ==> match pre.location {
                crate::data::Location::ObjectList { remote, bucket, prefix } => {
                    if contains_string(pre.connected@, remote@) {
                        &&& (if c.is_dir {
                            act matches Some(a) && a matches Action::DeletePrefix {
                                remote: r,
                                bucket: b,
                                prefix: p,
                                display_name: d,
                            } && r == remote && b == bucket && p == c.key && d == c.display_name
                        } else {
                            act matches Some(a) && a matches Action::DeleteObject {
                                remote: r,
                                bucket: b,
                                key: k,
                                display_name: d,
                            } && r == remote && b == bucket && k == c.key && d == c.display_name
                        })
                        &&& post == (App {
                            confirm_delete: post.confirm_delete,
                            ..pre
                        })
                    } else {
                        &&& act is None
                        &&& post.error matches Some(m) && m@ == "Not connected to remote"@
                        &&& post == (App {
                            confirm_delete: post.confirm_delete,
                            error: post.error,
                            ..pre
                        })
                    }
                },
                _ => act is None && post == (App {
                    confirm_delete: post.confirm_delete,
                    ..pre
                }),
            })
}

impl App {
    /// Open the delete confirmation for the selected row; buckets are
    /// refused.  The toggle starts on No.
    pub fn request_delete(&mut self)
        ensures
            request_delete_rel(*old(self), *final(self)),
    {
        if self.search_active {
            return ;
        }
        self.status_message = None;
        let idx = match self.browser_selected {
            Some(idx) => idx,
            None => {
                return ;
            },
        };
        if idx >= self.entries.len() {
            return ;
        }
        match &self.entries[idx] {
            Entry::Object(o) => {
                self.confirm_delete = Some(
                    DeleteConfirm {
                        display_name: o.display_name.clone(),
                        key: o.key.clone(),
                        is_dir: o.is_dir,
                        selected_yes: false,
                    },
                );
            },
            Entry::Bucket(_) => {
                self.error = Some("Bucket deletion is not supported".to_owned());
            },
        }
    }

    /// Flip the confirmation between No and Yes.
    pub fn toggle_delete_confirm(&mut self)
        ensures
            toggle_delete_rel(*old(self), *final(self)),
    {
        match &mut self.confirm_delete {
            Some(c) => {
                c.selected_yes = !c.selected_yes;
            },
            None => {},
        }
    }

    /// Accept the confirmation: close the overlay and, inside a connected
    /// bucket, ask for the delete call the confirmed row needs.
    pub fn confirm_delete_yes(&mut self) -> (act: Option<Action>)
        ensures
            confirm_delete_rel(*old(self), *final(self), act),
    {
        let confirm = match take_confirm(&mut self.confirm_delete) {
            Some(c) => c,
            None => {
                return None;
            },
        };
        let (remote, bucket) = match &self.location {
            crate::data::Location::ObjectList { remote, bucket, prefix: _ } => (
                remote.clone(),
                bucket.clone(),
            ),
            _ => {
                return None;
            },
        };
        if !self.has_client(remote.as_str()) {
            self.error = Some("Not connected to remote".to_owned());
            return None;
        }
        if confirm.is_dir {
            Some(
                Action::DeletePrefix {
                    remote,
                    bucket,
                    prefix: confirm.key,
                    display_name: confirm.display_name,
                },
            )
        } else {
            Some(
                Action::DeleteObject {
                    remote,
                    bucket,
                    key: confirm.key,
                    display_name: confirm.display_name,
                },
            )
        }
    }

    /// Apply the outcome of a single-object delete: on success the key leaves
    /// both the listing and the index pool; on failure both stay untouched
    /// and the error is surfaced.
    pub fn delete_object_result(&mut self, key: &str, display_name: &str, err: Option<String>)
        ensures
            match err {
                None => {
                    &&& final(self).entries@ == old(self).entries@.filter(keeps_other_keys(key@))
                    &&& final(self).search_pool@ == old(self).search_pool@.filter(
                        keeps_other_obj_keys(key@),
                    )
                    &&& final(self).browser_selected == clamp_sel(
                        old(self).browser_selected,
                        final(self).entries@.len() as int,
                    )
                    &&& final(self).metadata is None
                    &&& final(self).status_message matches Some(m) && m@ == "Deleted "@
                        + display_name@
                    &&& *final(self) == (App {
                        entries: final(self).entries,
                        search_pool: final(self).search_pool,
                        browser_selected: final(self).browser_selected,
                        metadata: final(self).metadata,
                        status_message: final(self).status_message,
                        ..*old(self)
                    })
                },
                Some(e) => {
                    &&& final(self).error matches Some(m) && m@ == "Delete failed: "@ + e@
                    &&& *final(self) == (App { error: final(self).error, ..*old(self) })
                },
            },
    {
        match err {
            None => {
                self.entries = retain_entries_not_key(&self.entries, key);
                self.search_pool = retain_pool_not_key(&self.search_pool, key);
                self.fix_selection();
                self.metadata = None;
                let mut m = "Deleted ".to_owned();
                m.append(display_name);
                self.status_message = Some(m);
            },
            Some(e) => {
                let mut m = "Delete failed: ".to_owned();
                m.append(e.as_str());
                self.error = Some(m);
            },
        }
    }

    /// Apply the outcome of a recursive delete: on success every row whose
    /// key starts with the deleted prefix leaves the listing and the pool
    /// (the prefix ends in the separator, so a sibling key that merely shares
    /// the text is kept); on failure both stay untouched.
    pub fn delete_prefix_result(
        &mut self,
        prefix: &str,
        display_name: &str,
        result: Result<usize, String>,
    )
        ensures
            match result {
                Ok(count) => {
                    &&& final(self).entries@ == old(self).entries@.filter(
                        keeps_outside_prefix(prefix@),
                    )
                    &&& final(self).search_pool@ == old(self).search_pool@.filter(
                        keeps_outside_obj_prefix(prefix@),
                    )
                    &&& final(self).browser_selected == clamp_sel(
                        old(self).browser_selected,
                        final(self).entries@.len() as int,
                    )
                    &&& final(self).metadata is None
                    &&& final(self).status_message matches Some(m) && m@ == "Deleted "@ + dec_of(
                        count as int,
                    ) + " objects from "@ + display_name@
                    &&& *final(self) == (App {
                        entries: final(self).entries,
                        search_pool: final(self).search_pool,
                        browser_selected: final(self).browser_selected,
                        metadata: final(self).metadata,
                        status_message: final(self).status_message,
                        ..*old(self)
                    })
                },
                Err(e) => {
                    &&& final(self).error matches Some(m) && m@ == "Delete failed: "@ + e@
                    &&& *final(self) == (App { error: final(self).error, ..*old(self) })
                },
            },
    {
        match result {
            Ok(count) => {
                self.entries = retain_entries_outside(&self.entries, prefix);
                self.search_pool = retain_pool_outside(&self.search_pool, prefix);
                self.fix_selection();
                self.metadata = None;
                let mut m = "Deleted ".to_owned();
                let c = u64_to_string(count as u64);
                m.append(c.as_str());
                m.append(" objects from ");
                m.append(display_name);
                self.status_message = Some(m);
            },
            Err(e) => {
                let mut m = "Delete failed: ".to_owned();
                m.append(e.as_str());
                self.error = Some(m);
            },
        }
    }
}

/// Move the confirmation out of the slot, leaving `None`.
fn take_confirm(slot: &mut Option<DeleteConfirm>) -> (r: Option<DeleteConfirm>)
    ensures
        r == *old(slot),
        *final(slot) is None,
{
    let mut tmp: Option<DeleteConfirm> = None;
    core::mem::swap(&mut tmp, slot);
    tmp
}

fn retain_entries_not_key(entries: &Vec<Entry>, key: &str) -> (r: Vec<Entry>)
    ensures
        r@ == entries@.filter(keeps_other_keys(key@)),
{
    let mut out: Vec<Entry> = Vec::new();
    let mut i: usize = 0;
    proof {
        reveal(Seq::filter);
        assert(entries@.take(0int).filter(keeps_other_keys(key@)) =~= Seq::<Entry>::empty());
    }
    while i < entries.len()
        invariant
            i <= entries@.len(),
            out@ == entries@.take(i as int).filter(keeps_other_keys(key@)),
        decreases entries@.len() - i,
    {
        let ghost pre = entries@.take(i as int).filter(keeps_other_keys(key@));
        proof {
            reveal(Seq::filter);
            assert(entries@.take(i + 1).drop_last() =~= entries@.take(i as int));
            assert(entries@.take(i + 1).last() == entries@[i as int]);
        }
        if !str_eq(entries[i].key(), key) {
            out.push(entries[i].clone());
            proof {
                assert(entries@.take(i + 1).filter(keeps_other_keys(key@)) =~= pre.push(
                    entries@[i as int],
                ));
            }
        } else {
            proof {
                assert(entries@.take(i + 1).filter(keeps_other_keys(key@)) =~= pre);
            }
        }
        i = i + 1;
    }
    proof {
        assert(entries@.take(entries@.len() as int) =~= entries@);
    }
    out
}

fn retain_pool_not_key(pool: &Vec<ObjectEntry>, key: &str) -> (r: Vec<ObjectEntry>)
    ensures
        r@ == pool@.filter(keeps_other_obj_keys(key@)),
{
    let mut out: Vec<ObjectEntry> = Vec::new();
    let mut i: usize = 0;
    proof {
        reveal(Seq::filter);
        assert(pool@.take(0int).filter(keeps_other_obj_keys(key@)) =~= Seq::<ObjectEntry>::empty());
    }
    while i < pool.len()
        invariant
            i <= pool@.len(),
            out@ == pool@.take(i as int).filter(keeps_other_obj_keys(key@)),
        decreases pool@.len() - i,
    {
        let ghost pre = pool@.take(i as int).filter(keeps_other_obj_keys(key@));
        proof {
            reveal(Seq::filter);
            assert(pool@.take(i + 1).drop_last() =~= pool@.take(i as int));
            assert(pool@.take(i + 1).last() == pool@[i as int]);
        }
        if !str_eq(pool[i].key.as_str(), key) {
            out.push(pool[i].clone());
            proof {
                assert(pool@.take(i + 1).filter(keeps_other_obj_keys(key@)) =~= pre.push(
                    pool@[i as int],
                ));
            }
        } else {
            proof {
                assert(pool@.take(i + 1).filter(keeps_other_obj_keys(key@)) =~= pre);
            }
        }
        i = i + 1;
    }
    proof {
        assert(pool@.take(pool@.len() as int) =~= pool@);
    }
    out
}

fn retain_entries_outside(entries: &Vec<Entry>, prefix: &str) -> (r: Vec<Entry>)
    ensures
        r@ == entries@.filter(keeps_outside_prefix(prefix@)),
{
    let mut out: Vec<Entry> = Vec::new();
    let mut i: usize = 0;
    proof {
        reveal(Seq::filter);
        assert(entries@.take(0int).filter(keeps_outside_prefix(prefix@)) =~= Seq::<Entry>::empty());
    }
    while i < entries.len()
        invariant
            i <= entries@.len(),
            out@ == entries@.take(i as int).filter(keeps_outside_prefix(prefix@)),
        decreases entries@.len() - i,
    {
        let ghost pre = entries@.take(i as int).filter(keeps_outside_prefix(prefix@));
        proof {
            reveal(Seq::filter);
            assert(entries@.take(i + 1).drop_last() =~= entries@.take(i as int));
            assert(entries@.take(i + 1).last() == entries@[i as int]);
        }
        if !str_starts_with(entries[i].key(), prefix) {
            out.push(entries[i].clone());
            proof {
                assert(entries@.take(i + 1).filter(keeps_outside_prefix(prefix@)) =~= pre.push(
                    entries@[i as int],
                ));
            }
        } else {
            proof {
                assert(entries@.take(i + 1).filter(keeps_outside_prefix(prefix@)) =~= pre);
            }
        }
        i = i + 1;
    }
    proof {
        assert(entries@.take(entries@.len() as int) =~= entries@);
    }
    out
}

fn retain_pool_outside(pool: &Vec<ObjectEntry>, prefix: &str) -> (r: Vec<ObjectEntry>)
    ensures
        r@ == pool@.filter(keeps_outside_obj_prefix(prefix@)),
{
    let mut out: Vec<ObjectEntry> = Vec::new();
    let mut i: usize = 0;
    proof {
        reveal(Seq::filter);
        assert(pool@.take(0int).filter(keeps_outside_obj_prefix(prefix@)) =~= Seq::<
            ObjectEntry,
        >::empty());
    }
    while i < pool.len()
        invariant
            i <= pool@.len(),
            out@ == pool@.take(i as int).filter(keeps_outside_obj_prefix(prefix@)),
        decreases pool@.len() - i,
    {
        let ghost pre = pool@.take(i as int).filter(keeps_outside_obj_prefix(prefix@));
        proof {
            reveal(Seq::filter);
            assert(pool@.take(i + 1).drop_last() =~= pool@.take(i as int));
            assert(pool@.take(i + 1).last() == pool@[i as int]);
        }
        if !str_starts_with(pool[i].key.as_str(), prefix) {
            out.push(pool[i].clone());
            proof {
                assert(pool@.take(i + 1).filter(keeps_outside_obj_prefix(prefix@)) =~= pre.push(
                    pool@[i as int],
                ));
            }
        } else {
            proof {
                assert(pool@.take(i + 1).filter(keeps_outside_obj_prefix(prefix@)) =~= pre);
            }
        }
        i = i + 1;
    }
    proof {
        assert(pool@.take(pool@.len() as int) =~= pool@);
    }
    out
}

} // verus!

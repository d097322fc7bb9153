//! The download orchestrator's session and accounting side: entering and
//! leaving download mode, the rename overlay, the two-phase recursive plan
//! (full enumeration first, transfers second), per-file accounting with
//! partial-success semantics, and the progress drain of the UI tick.

use vstd::prelude::*;
use vstd::string::StringExecFns;
use crate::action::Action;
use crate::data::{DownloadMsg, DownloadProgress, DownloadSource, Entry, Pane, RawObject};
use crate::session::{App, contains_string};
use crate::strings::{dec_of, ends_with_slash, str_ends_with_slash, strip_prefix_of, strip_prefix_or_self, u64_to_string};

verus! {

/// One object of a recursive download plan: its key, the path it mirrors to
/// under the destination root, and its listed size.
pub struct PlanItem {
    pub key: String,
    pub rel_path: String,
    pub size: u64,
}

/// The result of the enumeration phase: every object under the prefix, with
/// the totals a meaningful percentage needs.
pub struct DownloadPlan {
    pub items: Vec<PlanItem>,
    pub files_total: usize,
    pub total_bytes: u64,
}

/// Records kept by the plan: keyed, and not a zero-byte directory marker.
pub open spec fn plan_kept() -> spec_fn(RawObject) -> bool {
    |ro: RawObject| ro.key is Some && !ends_with_slash(ro.key.unwrap()@)
}

/// The listed size read as an unsigned byte count.
pub open spec fn plan_size(ro: RawObject) -> u64 {
    (match ro.size {
        Some(n) => n,
        None => 0,
    }) as u64
}

/// `item` is the plan entry of the raw record `ro`.
pub open spec fn planned_item(prefix: Seq<char>, ro: RawObject, item: PlanItem) -> bool {
    &&& ro.key is Some
    &&& item.key == ro.key.unwrap()
    &&& item.rel_path@ == strip_prefix_of(prefix, ro.key.unwrap()@)
    &&& item.size == plan_size(ro)
}

/// The byte total of a plan, before clamping.
pub open spec fn sum_item_sizes(items: Seq<PlanItem>) -> int
    decreases items.len(),
{
    if items.len() == 0 {
        0
    } else {
        items[0].size + sum_item_sizes(items.drop_first())
    }
}

proof fn lemma_sum_item_sizes_push(items: Seq<PlanItem>, x: PlanItem)
    ensures
        sum_item_sizes(items.push(x)) == sum_item_sizes(items) + x.size,
    decreases items.len(),
{
    if items.len() == 0 {
        assert(items.push(x)[0] == x);
        assert(items.push(x).drop_first() =~= items);
    } else {
        assert(items.push(x)[0] == items[0]);
        assert(items.push(x).drop_first() =~= items.drop_first().push(x));
        lemma_sum_item_sizes_push(items.drop_first(), x);
    }
}

/// Phase one of a recursive download: turn the full enumeration under the
/// prefix into a plan with exact totals (the byte total saturates at the
/// machine limit).
pub fn build_download_plan(prefix: &str, listed: Vec<RawObject>) -> (plan: DownloadPlan)
    ensures
        ({
            let kept = listed@.filter(plan_kept());
            &&& plan.items@.len() == kept.len()
            &&& forall|i: int|
                0 <= i < kept.len() ==> planned_item(prefix@, #[trigger] kept[i], plan.items@[i])
            &&& plan.files_total == kept.len()
            &&& plan.total_bytes == (if sum_item_sizes(plan.items@) <= u64::MAX {
                sum_item_sizes(plan.items@)
            } else {
                u64::MAX as int
            })
        }),
{
    let mut items: Vec<PlanItem> = Vec::new();
    let mut total_bytes: u64 = 0;
    let mut i: usize = 0;
    proof {
        reveal(Seq::filter);
        assert(listed@.take(0int).filter(plan_kept()) =~= Seq::<RawObject>::empty());
    }
    while i < listed.len()
        invariant
            i <= listed@.len(),
            items@.len() == listed@.take(i as int).filter(plan_kept()).len(),
            forall|k: int|
                0 <= k < items@.len() ==> planned_item(
                    prefix@,
                    #[trigger] listed@.take(i as int).filter(plan_kept())[k],
                    items@[k],
                ),
            total_bytes == (if sum_item_sizes(items@) <= u64::MAX {
                sum_item_sizes(items@)
            } else {
                u64::MAX as int
            }),
        decreases listed@.len() - i,
    {
        let ghost pre = listed@.take(i as int).filter(plan_kept());
        proof {
            reveal(Seq::filter);
            assert(listed@.take(i + 1).drop_last() =~= listed@.take(i as int));
            assert(listed@.take(i + 1).last() == listed@[i as int]);
        }
        let keep: bool = match &listed[i].key {
            Some(key) => !str_ends_with_slash(key.as_str()),
            None => false,
        };
        if keep {
            let key = match &listed[i].key {
                Some(key) => key.clone(),
                None => String::new(),
            };
            let rel = strip_prefix_or_self(key.as_str(), prefix);
            let size_signed: i64 = match listed[i].size {
                Some(n) => n,
                None => 0,
            };
            #[verifier::truncate]
            let size: u64 = size_signed as u64;
            let ghost old_items = items@;
            items.push(PlanItem { key, rel_path: rel, size });
            total_bytes = total_bytes.saturating_add(size);
            proof {
                lemma_sum_item_sizes_push(old_items, items@.last());
                assert(listed@.take(i + 1).filter(plan_kept()) =~= pre.push(listed@[i as int]));
            }
        } else {
            proof {
                assert(listed@.take(i + 1).filter(plan_kept()) =~= pre);
            }
        }
        i = i + 1;
    }
    proof {
        assert(listed@.take(listed@.len() as int) =~= listed@);
    }
    let files_total = items.len();
    DownloadPlan { items, files_total, total_bytes }
}

/// A failed recursive download: how many files failed, and the first cause.
pub struct PartialTransfer {
    pub failed: usize,
    pub first: String,
}

/// The shared accounting of a download job: bytes and files that finished,
/// failures and the first cause.  Counters only grow while a job runs.
pub struct DownloadTally {
    pub bytes_done: u64,
    pub files_done: usize,
    pub failures: usize,
    pub first_error: Option<String>,
}

/// A tally is well formed when a first cause is held exactly when something
/// failed.
pub open spec fn tally_wf(t: DownloadTally) -> bool {
    t.failures > 0 <==> t.first_error is Some
}

impl DownloadTally {
    /// A fresh job: nothing moved, nothing failed.
    pub fn new() -> (r: Self)
        ensures
            r.bytes_done == 0,
            r.files_done == 0,
            r.failures == 0,
            r.first_error is None,
            tally_wf(r),
    {
        DownloadTally { bytes_done: 0, files_done: 0, failures: 0, first_error: None }
    }

    /// One file finished: its bytes join the total (saturating at the
    /// machine limit) and the completion count grows by one.
    pub fn record_success(&mut self, size: u64)
        requires
            old(self).files_done < usize::MAX,
        ensures
            final(self).bytes_done == (if old(self).bytes_done + size <= u64::MAX {
                old(self).bytes_done + size
            } else {
                u64::MAX as int
            }),
            final(self).files_done == old(self).files_done + 1,
            final(self).failures == old(self).failures,
            final(self).first_error == old(self).first_error,
            tally_wf(*old(self)) ==> tally_wf(*final(self)),
    {
        self.bytes_done = self.bytes_done.saturating_add(size);
        self.files_done = self.files_done + 1;
    }

    /// One file failed: the failure count grows and the first cause is kept.
    pub fn record_failure(&mut self, err: String)
        requires
            old(self).failures < usize::MAX,
        ensures
            final(self).failures == old(self).failures + 1,
            final(self).first_error == (if old(self).first_error is Some {
                old(self).first_error
            } else {
                Some(err)
            }),
            final(self).bytes_done == old(self).bytes_done,
            final(self).files_done == old(self).files_done,
            tally_wf(*old(self)) ==> tally_wf(*final(self)),
    {
        if self.first_error.is_none() {
            self.first_error = Some(err);
        }
        self.failures = self.failures + 1;
    }

    /// Partial success is the contract: success exactly when no file failed,
    /// and otherwise the failure count with the first cause — nothing that
    /// finished is rolled back.
    pub fn outcome(self) -> (r: Result<(), PartialTransfer>)
        requires
            tally_wf(self),
        ensures
            self.failures == 0 ==> r is Ok,
            self.failures > 0 ==> (r matches Err(p) && p.failed == self.failures && Some(p.first)
                == self.first_error),
    {
        if self.failures == 0 {
            Ok(())
        } else {
            match self.first_error {
                Some(first) => Err(PartialTransfer { failed: self.failures, first }),
                None => Err(PartialTransfer { failed: self.failures, first: String::new() }),
            }
        }
    }
}

/// The message a failed recursive download reports: the failure count and
/// the first underlying cause.
pub fn partial_transfer_message(p: &PartialTransfer) -> (r: String)
    ensures
        r@ == dec_of(p.failed as int) + " files failed: "@ + p.first@,
{
    let mut m = u64_to_string(p.failed as u64);
    m.append(" files failed: ");
    m.append(p.first.as_str());
    m
}

/// How many outcomes succeeded.
pub open spec fn ok_count(outcomes: Seq<Result<u64, String>>) -> int
    decreases outcomes.len(),
{
    if outcomes.len() == 0 {
        0
    } else {
        (if outcomes[0] is Ok {
            1int
        } else {
            0int
        }) + ok_count(outcomes.drop_first())
    }
}

/// The byte total of the successful outcomes.
pub open spec fn ok_bytes(outcomes: Seq<Result<u64, String>>) -> int
    decreases outcomes.len(),
{
    if outcomes.len() == 0 {
        0
    } else {
        (match outcomes[0] {
            Ok(n) => n as int,
            Err(_) => 0,
        }) + ok_bytes(outcomes.drop_first())
    }
}

/// The first failure's message, if any.
pub open spec fn first_err(outcomes: Seq<Result<u64, String>>) -> Option<String>
    decreases outcomes.len(),
{
    if outcomes.len() == 0 {
        None
    } else {
        match outcomes[0] {
            Err(e) => Some(e),
            Ok(_) => first_err(outcomes.drop_first()),
        }
    }
}

/// Fold a job's per-file outcomes, in completion order, into its tally.
pub fn tally_outcomes(outcomes: Vec<Result<u64, String>>) -> (t: DownloadTally)
    ensures
        t.files_done == ok_count(outcomes@),
        t.failures == outcomes@.len() - ok_count(outcomes@),
        t.bytes_done == (if ok_bytes(outcomes@) <= u64::MAX {
            ok_bytes(outcomes@)
        } else {
            u64::MAX as int
        }),
        t.first_error == first_err(outcomes@),
        tally_wf(t),
{
    let mut t = DownloadTally::new();
    let mut outcomes = outcomes;
    let ghost all = outcomes@;
    let mut i: usize = 0;
    let n = outcomes.len();
    while i < n
        invariant
            i <= n,
            n == all.len(),
            outcomes@ == all.skip(i as int),
            t.files_done == ok_count(all.take(i as int)),
            t.failures == i - ok_count(all.take(i as int)),
            t.bytes_done == (if ok_bytes(all.take(i as int)) <= u64::MAX {
                ok_bytes(all.take(i as int))
            } else {
                u64::MAX as int
            }),
            t.first_error == first_err(all.take(i as int)),
            tally_wf(t),
        decreases n - i,
    {
        proof {
            assert(all.skip(i as int)[0] == all[i as int]);
            assert(all.skip(i as int).remove(0int) =~= all.skip(i + 1));
            lemma_outcome_take_step(all, i as int);
            assert(0 <= ok_count(all.take(i as int)) <= i) by {
                lemma_ok_count_bounds(all.take(i as int));
            }
        }
        let outcome = outcomes.remove(0);
        match outcome {
            Ok(size) => {
                t.record_success(size);
            },
            Err(e) => {
                t.record_failure(e);
            },
        }
        i = i + 1;
    }
    proof {
        assert(all.take(n as int) =~= all);
    }
    t
}

/// The successful count never exceeds the length.
proof fn lemma_ok_count_bounds(outcomes: Seq<Result<u64, String>>)
    ensures
        0 <= ok_count(outcomes) <= outcomes.len(),
    decreases outcomes.len(),
{
    if outcomes.len() > 0 {
        lemma_ok_count_bounds(outcomes.drop_first());
    }
}

/// One more outcome extends the folds by exactly that outcome.
proof fn lemma_outcome_take_step(outcomes: Seq<Result<u64, String>>, i: int)
    requires
        0 <= i < outcomes.len(),
    ensures
        ok_count(outcomes.take(i + 1)) == ok_count(outcomes.take(i)) + (if outcomes[i] is Ok {
            1int
        } else {
            0int
        }),
        ok_bytes(outcomes.take(i + 1)) == ok_bytes(outcomes.take(i)) + (match outcomes[i] {
            Ok(n) => n as int,
            Err(_) => 0int,
        }),
        first_err(outcomes.take(i + 1)) == (if first_err(outcomes.take(i)) is Some {
            first_err(outcomes.take(i))
        } else {
            match outcomes[i] {
                Err(e) => Some(e),
                Ok(_) => None::<String>,
            }
        }),
    decreases i,
{
    if i == 0 {
        assert(outcomes.take(1int)[0] == outcomes[0]);
        assert(outcomes.take(1int).drop_first() =~= outcomes.take(0int));
    } else {
        let t = outcomes.drop_first();
        assert(outcomes.take(i + 1)[0] == outcomes[0]);
        assert(outcomes.take(i)[0] == outcomes[0]);
        assert(outcomes.take(i + 1).drop_first() =~= t.take(i));
        assert(outcomes.take(i).drop_first() =~= t.take(i - 1));
        assert(t[i - 1] == outcomes[i]);
        lemma_outcome_take_step(t, i - 1);
    }
}

/// Law: over N objects with no failures, the job records exactly N
/// file completions, no failure, and a byte total equal to the sum of the
/// individual sizes.
pub proof fn lemma_download_all_ok(outcomes: Seq<Result<u64, String>>)
    requires
        forall|i: int| 0 <= i < outcomes.len() ==> #[trigger] outcomes[i] is Ok,
    ensures
        ok_count(outcomes) == outcomes.len(),
        first_err(outcomes) is None,
    decreases outcomes.len(),
{
    if outcomes.len() > 0 {
        assert(forall|i: int|
            0 <= i < outcomes.drop_first().len() ==> #[trigger] outcomes.drop_first()[i] is Ok);
        lemma_download_all_ok(outcomes.drop_first());
    }
}

/// Law: over N objects with exactly one failure, the job records N-1 file
/// completions, a failure count of one, and that failure's cause as the
/// first cause.
pub proof fn lemma_download_one_failure(outcomes: Seq<Result<u64, String>>, j: int)
    requires
        0 <= j < outcomes.len(),
        outcomes[j] is Err,
        forall|i: int| 0 <= i < outcomes.len() && i != j ==> #[trigger] outcomes[i] is Ok,
    ensures
        ok_count(outcomes) == outcomes.len() - 1,
        first_err(outcomes) == Some(outcomes[j]->Err_0),
    decreases j,
{
    let t = outcomes.drop_first();
    if j == 0 {
        assert(forall|i: int| 0 <= i < t.len() ==> #[trigger] t[i] is Ok);
        lemma_download_all_ok(t);
    } else {
        assert(t[j - 1] == outcomes[j]);
        assert(forall|i: int| 0 <= i < t.len() && i != j - 1 ==> #[trigger] t[i] is Ok);
        lemma_download_one_failure(t, j - 1);
    }
}

/// How many leading progress messages a drain applies before the final one
/// (all of them when none is final).
pub open spec fn first_final(msgs: Seq<DownloadMsg>) -> int
    decreases msgs.len(),
{
    if msgs.len() == 0 {
        0
    } else if msgs[0].complete {
        0
    } else {
        1 + first_final(msgs.drop_first())
    }
}

/// `p2` is `p1` with the counters of the progress message `m`.
pub open spec fn counters_match(p2: DownloadProgress, p1: DownloadProgress, m: DownloadMsg) -> bool {
    &&& p2.filename == p1.filename
    &&& p2.bytes_downloaded == m.bytes_downloaded
    &&& p2.total_bytes == m.total_bytes
    &&& p2.files_done == m.files_done
    &&& p2.files_total == m.files_total
    &&& p2.complete == p1.complete
    &&& p2.error == p1.error
}

/// The progress record after the non-final messages before `upto` are
/// applied: the last one wins.
pub open spec fn progress_after(
    p: Option<DownloadProgress>,
    msgs: Seq<DownloadMsg>,
    upto: int,
    q: Option<DownloadProgress>,
) -> bool {
    if upto == 0 {
        q == p
    } else {
        match (p, q) {
            (Some(p1), Some(p2)) => counters_match(p2, p1, msgs[upto - 1]),
            (None, None) => true,
            _ => false,
        }
    }
}

pub open spec fn start_download_mode_rel(pre: App, post: App, act: Option<Action>) -> bool {
    &&& (pre.search_active || pre.download_mode ==> act is None && post
                == pre)
    &&& (!(pre.search_active || pre.download_mode) ==> match pre.browser_selected {
                Some(idx) => if idx < pre.entries@.len() {
                    if !(pre.location is ObjectList) {
                        &&& act is None
                        &&& post.error matches Some(m) && m@
                            == "Navigate into a bucket first"@
                        &&& post == (App { error: post.error, ..pre })
                    } else {
                        match pre.entries@[idx as int] {
                            Entry::Object(o) => {
                                &&& act matches Some(a) && a is ListLocalDir
                                &&& post.download_source matches Some(src)
                                    && src.display_name == o.display_name && src.key == o.key
                                &&& post.download_source_is_dir == o.is_dir
                                &&& post.download_mode
                                &&& post.rename_input is None
                                &&& !post.rename_active
                                &&& post.pane == Pane::LocalFs
                                &&& post == (App {
                                    download_source: post.download_source,
                                    download_source_is_dir: post.download_source_is_dir,
                                    download_mode: post.download_mode,
                                    rename_input: post.rename_input,
                                    rename_active: post.rename_active,
                                    pane: post.pane,
                                    ..pre
                                })
                            },
                            Entry::Bucket(_) => {
                                &&& act is None
                                &&& post.error matches Some(m) && m@
                                    == "Cannot download a bucket"@
                                &&& post == (App { error: post.error, ..pre })
                            },
                        }
                    }
                } else {
                    act is None && post == pre
                },
                None => act is None && post == pre,
            })
}

pub open spec fn cancel_download_mode_rel(pre: App, post: App) -> bool {
    &&& (!post.download_mode)
    &&& (post.download_source is None)
    &&& (post.rename_input is None)
    &&& (!post.rename_active)
    &&& (post.local_entries@ == Seq::<crate::data::LocalEntry>::empty())
    &&& (post.pane == (if pre.pane == Pane::LocalFs {
                Pane::Browser
            } else {
                pre.pane
            }))
    &&& (post == (App {
                download_mode: post.download_mode,
                download_source: post.download_source,
                rename_input: post.rename_input,
                rename_active: post.rename_active,
                local_entries: post.local_entries,
                pane: post.pane,
                ..pre
            }))
}

pub open spec fn start_rename_rel(pre: App, post: App) -> bool {
    &&& (match pre.download_source {
                Some(src) => post.rename_active && (post.rename_input matches Some(
                    n,
                ) && n == src.display_name),
                None => post == pre,
            })
    &&& (post == (App {
                rename_active: post.rename_active,
                rename_input: post.rename_input,
                ..pre
            }))
}

pub open spec fn rename_char_rel(pre: App, post: App, c: char) -> bool {
    &&& (match pre.rename_input {
                Some(n) => post.rename_input matches Some(m) && m@ == n@.push(c),
                None => post.rename_input is None,
            })
    &&& (post == (App { rename_input: post.rename_input, ..pre }))
}

pub open spec fn rename_backspace_rel(pre: App, post: App) -> bool {
    &&& (match pre.rename_input {
                Some(n) => post.rename_input matches Some(m) && m@ == (if n@.len() == 0 {
                    n@
                } else {
                    n@.drop_last()
                }),
                None => post.rename_input is None,
            })
    &&& (post == (App { rename_input: post.rename_input, ..pre }))
}

pub open spec fn finish_rename_rel(pre: App, post: App) -> bool {
    &&& (!post.rename_active)
    &&& (post == (App { rename_active: post.rename_active, ..pre }))
}

pub open spec fn cancel_rename_rel(pre: App, post: App) -> bool {
    &&& (!post.rename_active)
    &&& (post.rename_input is None)
    &&& (post == (App {
                rename_active: post.rename_active,
                rename_input: post.rename_input,
                ..pre
            }))
}

pub open spec fn confirm_download_rel(pre: App, post: App, act: Option<Action>) -> bool {
    &&& (pre.download_source is None ==> act is None && post == pre)
    &&& (pre.download_source matches Some(src) ==> match pre.location {
                crate::data::Location::ObjectList { remote, bucket, prefix } => {
                    if contains_string(pre.connected@, remote@) {
                        let target = (match pre.rename_input {
                            Some(custom) => if custom@.len() > 0 {
                                custom
                            } else {
                                src.display_name
                            },
                            None => src.display_name,
                        });
                        &&& act matches Some(a) && a matches Action::StartDownload {
                            remote: r,
                            bucket: b,
                            key: k,
                            target_name: t,
                            is_dir: d,
                        } && r == remote && b == bucket && k == src.key && t == target && d == pre.download_source_is_dir
                        &&& post.download_source is None
                        &&& post.rename_input is None
                        &&& !post.download_mode
                        &&& !post.rename_active
                        &&& post.local_entries@ == Seq::<crate::data::LocalEntry>::empty()
                        &&& post.pane == Pane::Browser
                        &&& post.download_live
                        &&& post.download_progress matches Some(p) && p.filename == target
                            && p.bytes_downloaded == 0 && p.total_bytes == 0 && p.files_done == 0
                            && p.files_total == (if pre.download_source_is_dir {
                            0int
                        } else {
                            1int
                        }) && !p.complete && p.error is None
                        &&& post == (App {
                            download_source: post.download_source,
                            rename_input: post.rename_input,
                            download_mode: post.download_mode,
                            rename_active: post.rename_active,
                            local_entries: post.local_entries,
                            pane: post.pane,
                            download_live: post.download_live,
                            download_progress: post.download_progress,
                            ..pre
                        })
                    } else {
                        &&& act is None
                        &&& post.error matches Some(m) && m@ == "Not connected to remote"@
                        &&& post.download_source is None
                        &&& post == (App {
                            download_source: post.download_source,
                            error: post.error,
                            ..pre
                        })
                    }
                },
                _ => {
                    &&& act is None
                    &&& post.download_source is None
                    &&& post == (App {
                        download_source: post.download_source,
                        ..pre
                    })
                },
            })
}

impl App {
    /// Enter download mode: snapshot the selected object, open the local
    /// pane, and ask for its listing.  Buckets cannot be downloaded, and the
    /// browser must be inside a bucket.
    pub fn start_download_mode(&mut self) -> (act: Option<Action>)
        ensures
            start_download_mode_rel(*old(self), *final(self), act),
    {
        if self.search_active || self.download_mode {
            return None;
        }
        let idx = match self.browser_selected {
            Some(idx) => idx,
            None => {
                return None;
            },
        };
        if idx >= self.entries.len() {
            return None;
        }
        let is_object_list = match &self.location {
            crate::data::Location::ObjectList { .. } => true,
            _ => false,
        };
        if !is_object_list {
            self.error = Some("Navigate into a bucket first".to_owned());
            return None;
        }
        match &self.entries[idx] {
            Entry::Object(o) => {
                self.download_source = Some(
                    DownloadSource { display_name: o.display_name.clone(), key: o.key.clone() },
                );
                self.download_source_is_dir = o.is_dir;
            },
            Entry::Bucket(_) => {
                self.error = Some("Cannot download a bucket".to_owned());
                return None;
            },
        }
        self.download_mode = true;
        self.rename_input = None;
        self.rename_active = false;
        self.pane = Pane::LocalFs;
        Some(Action::ListLocalDir)
    }

    /// Leave download mode without side effects: the snapshot is dropped and
    /// the layout returns to two panes.
    pub fn cancel_download_mode(&mut self)
        ensures
            cancel_download_mode_rel(*old(self), *final(self)),
    {
        self.download_mode = false;
        self.download_source = None;
        self.rename_input = None;
        self.rename_active = false;
        self.local_entries = Vec::new();
        if self.pane == Pane::LocalFs {
            self.pane = Pane::Browser;
        }
    }

    /// Start typing a custom target name, seeded with the source's display
    /// name.
    pub fn start_rename(&mut self)
        ensures
            start_rename_rel(*old(self), *final(self)),
    {
        match &self.download_source {
            Some(src) => {
                self.rename_active = true;
                self.rename_input = Some(src.display_name.clone());
            },
            None => {},
        }
    }

    /// Append one character to the custom name.
    pub fn rename_char(&mut self, c: char)
        ensures
            rename_char_rel(*old(self), *final(self), c),
    {
        match &mut self.rename_input {
            Some(input) => {
                crate::strings::push_char(input, c);
            },
            None => {},
        }
    }

    /// Drop the last character of the custom name.
    pub fn rename_backspace(&mut self)
        ensures
            rename_backspace_rel(*old(self), *final(self)),
    {
        match &mut self.rename_input {
            Some(input) => {
                let _ = crate::strings::pop_char(input);
            },
            None => {},
        }
    }

    /// Keep the custom name and stop typing.
    pub fn finish_rename(&mut self)
        ensures
            finish_rename_rel(*old(self), *final(self)),
    {
        self.rename_active = false;
    }

    /// Drop the custom name and stop typing.
    pub fn cancel_rename(&mut self)
        ensures
            cancel_rename_rel(*old(self), *final(self)),
    {
        self.rename_active = false;
        self.rename_input = None;
    }

    /// The file name the download will use: the non-empty custom name, else
    /// the source's display name.
    pub fn download_target_name(&self) -> (r: Option<String>)
        ensures
            match self.rename_input {
                Some(custom) => if custom@.len() > 0 {
                    r matches Some(n) && n == custom
                } else {
                    match self.download_source {
                        Some(src) => r matches Some(n) && n == src.display_name,
                        None => r is None,
                    }
                },
                None => match self.download_source {
                    Some(src) => r matches Some(n) && n == src.display_name,
                    None => r is None,
                },
            },
    {
        match &self.rename_input {
            Some(custom) => {
                if !custom.as_str().is_empty() {
                    return Some(custom.clone());
                }
            },
            None => {},
        }
        match &self.download_source {
            Some(src) => Some(src.display_name.clone()),
            None => None,
        }
    }

    /// Confirm the download: close the mode, reset the progress record for
    /// the new job, and ask for the transfer into the current local
    /// directory (the non-empty custom name wins over the display name).
    pub fn confirm_download(&mut self) -> (act: Option<Action>)
        ensures
            confirm_download_rel(*old(self), *final(self), act),
    {
        let src = match take_source(&mut self.download_source) {
            Some(s) => s,
            None => {
                return None;
            },
        };
        let is_dir = self.download_source_is_dir;
        let (remote, bucket) = match &self.location {
            crate::data::Location::ObjectList { remote, bucket, prefix: _ } => (
                remote.clone(),
                bucket.clone(),
            ),
            _ => {
                return None;
            },
        };
        if !self.has_client(remote.as_str()) {
            self.error = Some("Not connected to remote".to_owned());
            return None;
        }
        let custom = take_name(&mut self.rename_input);
        let target_name = match custom {
            Some(c) => if c.as_str().is_empty() {
                src.display_name
            } else {
                c
            },
            None => src.display_name,
        };
        self.download_mode = false;
        self.rename_active = false;
        self.local_entries = Vec::new();
        self.pane = Pane::Browser;
        self.download_live = true;
        self.download_progress = Some(
            DownloadProgress {
                filename: target_name.clone(),
                bytes_downloaded: 0,
                total_bytes: 0,
                files_done: 0,
                files_total: if is_dir {
                    0
                } else {
                    1
                },
                complete: false,
                error: None,
            },
        );
        Some(
            Action::StartDownload {
                remote,
                bucket,
                key: src.key,
                target_name,
                is_dir,
            },
        )
    }

    /// Apply the progress messages drained this tick, in arrival order.
    /// Counter messages overwrite the progress record; the final message
    /// closes the job, surfaces its error or announces completion, and stops
    /// the drain; a closed channel closes the job silently.
    #[verifier::loop_isolation(false)]
    pub fn drain_download(&mut self, msgs: Vec<DownloadMsg>, closed: bool)
        ensures
            !old(self).download_live ==> *final(self) == *old(self),
            old(self).download_live ==> {
                let fin = first_final(msgs@);
                &&& progress_after(
                    old(self).download_progress,
                    msgs@,
                    fin,
                    if fin < msgs@.len() || (closed && old(self).download_progress is Some) {
                        match final(self).download_progress {
                            Some(p) => Some(
                                DownloadProgress {
                                    complete: (match old(self).download_progress {
                                        Some(q) => q.complete,
                                        None => p.complete,
                                    }),
                                    error: (match old(self).download_progress {
                                        Some(q) => q.error,
                                        None => p.error,
                                    }),
                                    ..p
                                },
                            ),
                            None => None,
                        }
                    } else {
                        final(self).download_progress
                    },
                )
                &&& (fin < msgs@.len() ==> {
                    let m = msgs@[fin];
                    &&& !final(self).download_live
                    &&& (match (old(self).download_progress, final(self).download_progress) {
                        (Some(_), Some(p)) => {
                            &&& p.complete
                            &&& p.error == m.error
                            &&& (m.error is None ==> (final(self).status_message matches Some(t)
                                && t@ == "Downloaded "@ + p.filename@))
                            &&& (m.error matches Some(cause) ==> (final(self).error matches Some(t)
                                && t@ == "Download failed: "@ + cause@))
                        },
                        (None, None) => true,
                        _ => false,
                    })
                })
                &&& (fin == msgs@.len() ==> {
                    &&& final(self).download_live == !closed
                    &&& final(self).status_message == old(self).status_message
                    &&& final(self).error == old(self).error
                    &&& (match (old(self).download_progress, final(self).download_progress) {
                        (Some(q), Some(p)) => p.complete == (q.complete || closed) && p.error
                            == q.error,
                        (None, None) => true,
                        _ => false,
                    })
                })
                &&& *final(self) == (App {
                    download_progress: final(self).download_progress,
                    download_live: final(self).download_live,
                    status_message: final(self).status_message,
                    error: final(self).error,
                    ..*old(self)
                })
            },
    {
        if !self.download_live {
            return ;
        }
        let ghost all = msgs@;
        let mut msgs = msgs;
        let mut i: usize = 0;
        let n = msgs.len();
        while i < n
            invariant
                i <= n,
                n == all.len(),
                msgs@ == all.skip(i as int),
                forall|k: int| 0 <= k < i ==> !(#[trigger] all[k]).complete,
                progress_after(
                    old(self).download_progress,
                    all,
                    i as int,
                    self.download_progress,
                ),
                self.download_live,
                *self == (App { download_progress: self.download_progress, ..*old(self) }),
            decreases n - i,
        {
            proof {
                assert(all.skip(i as int)[0] == all[i as int]);
                assert(all.skip(i as int).remove(0int) =~= all.skip(i + 1));
            }
            let msg = msgs.remove(0);
            if msg.complete {
                proof {
                    lemma_first_final_at(all, i as int);
                }
                match take_progress(&mut self.download_progress) {
                    Some(p) => {
                        match &msg.error {
                            None => {
                                let mut t = "Downloaded ".to_owned();
                                t.append(p.filename.as_str());
                                self.status_message = Some(t);
                            },
                            Some(cause) => {
                                let mut t = "Download failed: ".to_owned();
                                t.append(cause.as_str());
                                self.error = Some(t);
                            },
                        }
                        self.download_progress = Some(
                            DownloadProgress { complete: true, error: msg.error, ..p },
                        );
                    },
                    None => {},
                }
                self.download_live = false;
                return ;
            }
            match take_progress(&mut self.download_progress) {
                Some(p) => {
                    self.download_progress = Some(
                        DownloadProgress {
                            bytes_downloaded: msg.bytes_downloaded,
                            total_bytes: msg.total_bytes,
                            files_done: msg.files_done,
                            files_total: msg.files_total,
                            ..p
                        },
                    );
                },
                None => {},
            }
            i = i + 1;
        }
        proof {
            lemma_first_final_all(all);
        }
        if closed {
            match take_progress(&mut self.download_progress) {
                Some(p) => {
                    self.download_progress = Some(DownloadProgress { complete: true, ..p });
                },
                None => {},
            }
            self.download_live = false;
        }
    }
}

/// Move the progress record out of the slot, leaving `None`.
fn take_progress(slot: &mut Option<DownloadProgress>) -> (r: Option<DownloadProgress>)
    ensures
        r == *old(slot),
        *final(slot) is None,
{
    let mut tmp: Option<DownloadProgress> = None;
    core::mem::swap(&mut tmp, slot);
    tmp
}

/// A final message at `i` after only counter messages pins the drain's stop.
proof fn lemma_first_final_at(msgs: Seq<DownloadMsg>, i: int)
    requires
        0 <= i < msgs.len(),
        msgs[i].complete,
        forall|k: int| 0 <= k < i ==> !(#[trigger] msgs[k]).complete,
    ensures
        first_final(msgs) == i,
    decreases i,
{
    if i > 0 {
        let t = msgs.drop_first();
        assert(forall|k: int| 0 <= k < i - 1 ==> !(#[trigger] t[k]).complete);
        assert(t[i - 1] == msgs[i]);
        lemma_first_final_at(t, i - 1);
    }
}

/// With no final message, the whole drain is applied.
proof fn lemma_first_final_all(msgs: Seq<DownloadMsg>)
    requires
        forall|k: int| 0 <= k < msgs.len() ==> !(#[trigger] msgs[k]).complete,
    ensures
        first_final(msgs) == msgs.len(),
    decreases msgs.len(),
{
    if msgs.len() > 0 {
        assert(forall|k: int|
            0 <= k < msgs.drop_first().len() ==> !(#[trigger] msgs.drop_first()[k]).complete);
        lemma_first_final_all(msgs.drop_first());
    }
}

/// Move the source out of the slot, leaving `None`.
fn take_source(slot: &mut Option<DownloadSource>) -> (r: Option<DownloadSource>)
    ensures
        r == *old(slot),
        *final(slot) is None,
{
    let mut tmp: Option<DownloadSource> = None;
    core::mem::swap(&mut tmp, slot);
    tmp
}

/// Move the custom name out of the slot, leaving `None`.
fn take_name(slot: &mut Option<String>) -> (r: Option<String>)
    ensures
        r == *old(slot),
        *final(slot) is None,
{
    let mut tmp: Option<String> = None;
    core::mem::swap(&mut tmp, slot);
    tmp
}


} // verus!

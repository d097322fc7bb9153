//! The index streamer's session side: at most one live stream, keyed by
//! (remote, bucket).  Starting the same key again is a no-op; a new key bumps
//! the generation (a fresh task identity), clears the pool, and resets
//! completion before any batch of the new key can land.

use vstd::prelude::*;
use vstd::string::StringExecFns;
use crate::action::IndexDirective;
use crate::data::{IndexKey, IndexMsg, ObjectEntry};
use crate::search::filtered_pool_rows;
use crate::session::{App, clamp_sel};

verus! {

/// The running stream already enumerates this key.
pub open spec fn same_index_key(key: Option<IndexKey>, remote: Seq<char>, bucket: Seq<char>) -> bool {
    match key {
        Some(k) => k.remote@ == remote && k.bucket@ == bucket,
        None => false,
    }
}

/// Everything except a terminal message is a batch.
pub open spec fn is_terminal(m: IndexMsg) -> bool {
    !(m is Batch)
}

/// The records a batch message carries.
pub open spec fn batch_content(m: IndexMsg) -> Seq<ObjectEntry> {
    match m {
        IndexMsg::Batch(b) => b@,
        _ => Seq::empty(),
    }
}

/// How many leading batch messages a drain consumes before it stops at a
/// terminal message (all of them when none is terminal).
pub open spec fn first_terminal(msgs: Seq<IndexMsg>) -> int
    decreases msgs.len(),
{
    if msgs.len() == 0 {
        0
    } else if is_terminal(msgs[0]) {
        0
    } else {
        1 + first_terminal(msgs.drop_first())
    }
}

/// Everything the leading batch messages carry, in arrival order.
pub open spec fn drained_batches(msgs: Seq<IndexMsg>) -> Seq<ObjectEntry>
    decreases msgs.len(),
{
    if msgs.len() == 0 {
        Seq::empty()
    } else if is_terminal(msgs[0]) {
        Seq::empty()
    } else {
        batch_content(msgs[0]) + drained_batches(msgs.drop_first())
    }
}

/// The terminal message a drain stops at, if any.
pub open spec fn terminal_of(msgs: Seq<IndexMsg>) -> Option<IndexMsg> {
    if first_terminal(msgs) < msgs.len() {
        Some(msgs[first_terminal(msgs)])
    } else {
        None
    }
}

impl App {
    /// Ask for this bucket to be indexed.  The same generation key is a
    /// complete no-op: pool, task identity and completion flag are untouched.
    /// A different key bumps the task generation (the old task dies, a fresh
    /// one starts), clears the pool before any new batch can be observed, and
    /// resets completion.
    pub fn start_indexing(&mut self, remote: &str, bucket: &str) -> (d: IndexDirective)
        ensures
            same_index_key(old(self).index_key, remote@, bucket@) ==> d == IndexDirective::Keep
                && *final(self) == *old(self),
            !same_index_key(old(self).index_key, remote@, bucket@) ==> {
                &&& d == IndexDirective::Restart
                &&& final(self).search_pool@ == Seq::<ObjectEntry>::empty()
                &&& final(self).index_key matches Some(k) && k.remote@ == remote@ && k.bucket@
                    == bucket@
                &&& !final(self).index_complete
                &&& final(self).index_generation == vstd::wrapping::u64_specs::wrapping_add(
                    old(self).index_generation,
                    1u64,
                )
                &&& *final(self) == (App {
                    search_pool: final(self).search_pool,
                    index_key: final(self).index_key,
                    index_complete: final(self).index_complete,
                    index_generation: final(self).index_generation,
                    ..*old(self)
                })
            },
    {
        let same = match &self.index_key {
            Some(k) => crate::strings::str_eq(k.remote.as_str(), remote) && crate::strings::str_eq(
                k.bucket.as_str(),
                bucket,
            ),
            None => false,
        };
        if same {
            return IndexDirective::Keep;
        }
        self.index_key = Some(IndexKey { remote: remote.to_owned(), bucket: bucket.to_owned() });
        self.search_pool = Vec::new();
        self.index_complete = false;
        self.index_generation = self.index_generation.wrapping_add(1);
        IndexDirective::Restart
    }

    /// Stop indexing: the task dies, and no stale generation's data survives.
    pub fn cancel_indexing(&mut self)
        ensures
            final(self).index_key is None,
            !final(self).index_complete,
            final(self).search_pool@ == Seq::<ObjectEntry>::empty(),
            final(self).index_generation == old(self).index_generation,
            *final(self) == (App {
                search_pool: final(self).search_pool,
                index_key: final(self).index_key,
                index_complete: final(self).index_complete,
                ..*old(self)
            }),
    {
        self.index_key = None;
        self.index_complete = false;
        self.search_pool = Vec::new();
    }

    /// Apply the messages drained from the index channel this tick, in
    /// arrival order, stopping at the first terminal message.  Batches extend
    /// the pool; `Done` marks completion; an `Error` is surfaced only while a
    /// search depends on the pool; a closed channel counts as completion.
    /// While an index-backed search is active, new batches re-run the filter.
    pub fn drain_index(&mut self, msgs: Vec<IndexMsg>, closed: bool)
        ensures
            old(self).index_key is None ==> *final(self) == *old(self),
            old(self).index_key is Some ==> {
                let consumed = first_terminal(msgs@);
                let refilter = consumed != 0 && old(self).search_active;
                &&& final(self).search_pool@ == old(self).search_pool@ + drained_batches(msgs@)
                &&& final(self).index_complete == (old(self).index_complete || consumed
                    < msgs@.len() || closed)
                &&& (match terminal_of(msgs@) {
                    Some(m) => match m {
                        IndexMsg::Error(e) => if old(self).search_active {
                            final(self).error matches Some(t) && t@ == "Index error: "@ + e@
                        } else {
                            final(self).error == old(self).error
                        },
                        _ => final(self).error == old(self).error,
                    },
                    None => final(self).error == old(self).error,
                })
                &&& final(self).entries@ == (if refilter {
                    filtered_pool_rows(final(self).search_pool@, old(self).search_query@)
                } else {
                    old(self).entries@
                })
                &&& final(self).browser_selected == (if refilter {
                    clamp_sel(old(self).browser_selected, final(self).entries@.len() as int)
                } else {
                    old(self).browser_selected
                })
                &&& *final(self) == (App {
                    search_pool: final(self).search_pool,
                    index_complete: final(self).index_complete,
                    error: final(self).error,
                    entries: final(self).entries,
                    browser_selected: final(self).browser_selected,
                    ..*old(self)
                })
            },
    {
        if self.index_key.is_none() {
            return ;
        }
        let ghost all = msgs@;
        let ghost pre_pool = self.search_pool@;
        let mut msgs = msgs;
        let mut got_new = false;
        let mut saw_terminal = false;
        let mut i: usize = 0;
        let n = msgs.len();
        proof {
            assert(pre_pool + drained_batches(all.take(0int)) =~= pre_pool);
        }
        while i < n && !saw_terminal
            invariant
                i <= n,
                n == all.len(),
                msgs@ == all.skip(i as int),
                self.index_key == old(self).index_key,
                self.index_key is Some,
                !saw_terminal ==> {
                    &&& got_new == (i != 0)
                    &&& forall|k: int| 0 <= k < i ==> !is_terminal(#[trigger] all[k])
                    &&& self.search_pool@ == pre_pool + drained_batches(all.take(i as int))
                    &&& self.index_complete == old(self).index_complete
                    &&& self.error == old(self).error
                },
                saw_terminal ==> {
                    &&& 0 < i <= n
                    &&& got_new == (i != 1)
                    &&& first_terminal(all) == i - 1
                    &&& is_terminal(all[i - 1])
                    &&& self.search_pool@ == pre_pool + drained_batches(all)
                    &&& self.index_complete
                    &&& (match all[i - 1] {
                        IndexMsg::Error(e) => if old(self).search_active {
                            self.error matches Some(m) && m@ == "Index error: "@ + e@
                        } else {
                            self.error == old(self).error
                        },
                        _ => self.error == old(self).error,
                    })
                },
                *self == (App {
                    search_pool: self.search_pool,
                    index_complete: self.index_complete,
                    error: self.error,
                    ..*old(self)
                }),
            decreases n - i,
        {
            proof {
                assert(all.skip(i as int)[0] == all[i as int]);
                assert(all.skip(i as int).remove(0int) =~= all.skip(i + 1));
            }
            let msg = msgs.remove(0);
            match msg {
                IndexMsg::Batch(batch) => {
                    let mut batch = batch;
                    proof {
                        lemma_drained_take_step(all, i as int);
                    }
                    self.search_pool.append(&mut batch);
                    got_new = true;
                    proof {
                        assert((pre_pool + drained_batches(all.take(i as int))) + batch_content(
                            all[i as int],
                        ) =~= pre_pool + drained_batches(all.take(i + 1)));
                    }
                },
                IndexMsg::Done => {
                    self.index_complete = true;
                    saw_terminal = true;
                    proof {
                        lemma_drained_stops_at_terminal(all, i as int);
                        assert(pre_pool + drained_batches(all.take(i as int)) =~= pre_pool
                            + drained_batches(all));
                    }
                },
                IndexMsg::Error(e) => {
                    if self.search_active {
                        let mut m = "Index error: ".to_owned();
                        m.append(e.as_str());
                        self.error = Some(m);
                    }
                    self.index_complete = true;
                    saw_terminal = true;
                    proof {
                        lemma_drained_stops_at_terminal(all, i as int);
                        assert(pre_pool + drained_batches(all.take(i as int)) =~= pre_pool
                            + drained_batches(all));
                    }
                },
            }
            i = i + 1;
        }
        proof {
            if !saw_terminal {
                assert(i == n);
                lemma_first_terminal_all(all);
                assert(all.take(i as int) =~= all);
                assert(terminal_of(all) is None);
            } else {
                assert(first_terminal(all) < all.len());
                assert(terminal_of(all) == Some(all[i - 1]));
                assert(first_terminal(all) != 0 <==> i != 1);
            }
        }
        if !saw_terminal && closed {
            self.index_complete = true;
        }
        if got_new && self.search_active {
            self.update_search_filter();
        }
    }
}

/// With no terminal message, the whole drain is consumed.
proof fn lemma_first_terminal_all(msgs: Seq<IndexMsg>)
    requires
        forall|k: int| 0 <= k < msgs.len() ==> !is_terminal(#[trigger] msgs[k]),
    ensures
        first_terminal(msgs) == msgs.len(),
    decreases msgs.len(),
{
    if msgs.len() > 0 {
        assert(forall|k: int|
            0 <= k < msgs.drop_first().len() ==> !is_terminal(#[trigger] msgs.drop_first()[k]));
        lemma_first_terminal_all(msgs.drop_first());
    }
}

/// A step of the drain: one more batch message extends what is drained.
proof fn lemma_drained_take_step(msgs: Seq<IndexMsg>, i: int)
    requires
        0 <= i < msgs.len(),
        !is_terminal(msgs[i]),
        forall|k: int| 0 <= k < i ==> !is_terminal(#[trigger] msgs[k]),
    ensures
        drained_batches(msgs.take(i + 1)) == drained_batches(msgs.take(i)) + batch_content(
            msgs[i],
        ),
    decreases i,
{
    if i == 0 {
        assert(msgs.take(1int)[0] == msgs[0]);
        assert(msgs.take(1int).drop_first() =~= msgs.take(0int));
        assert(drained_batches(msgs.take(0int)) =~= Seq::<ObjectEntry>::empty());
        assert(drained_batches(msgs.take(1int)) == batch_content(msgs[0]) + drained_batches(
            msgs.take(0int),
        ));
        assert(batch_content(msgs[0]) + Seq::<ObjectEntry>::empty() =~= batch_content(msgs[0]));
        assert(Seq::<ObjectEntry>::empty() + batch_content(msgs[0]) =~= batch_content(msgs[0]));
    } else {
        let t = msgs.drop_first();
        assert(msgs.take(i + 1)[0] == msgs[0]);
        assert(msgs.take(i)[0] == msgs[0]);
        assert(msgs.take(i + 1).drop_first() =~= t.take(i));
        assert(msgs.take(i).drop_first() =~= t.take(i - 1));
        assert(forall|k: int| 0 <= k < i - 1 ==> !is_terminal(#[trigger] t[k]));
        assert(t[i - 1] == msgs[i]);
        lemma_drained_take_step(t, i - 1);
        assert(drained_batches(msgs.take(i + 1)) == batch_content(msgs[0]) + drained_batches(
            t.take(i),
        ));
        assert(drained_batches(msgs.take(i)) == batch_content(msgs[0]) + drained_batches(
            t.take(i - 1),
        ));
        assert(batch_content(msgs[0]) + (drained_batches(t.take(i - 1)) + batch_content(t[i - 1]))
            =~= (batch_content(msgs[0]) + drained_batches(t.take(i - 1))) + batch_content(
            msgs[i],
        ));
    }
}

/// A terminal at `i` with only batches before it ends the drain there.
proof fn lemma_drained_stops_at_terminal(msgs: Seq<IndexMsg>, i: int)
    requires
        0 <= i < msgs.len(),
        is_terminal(msgs[i]),
        forall|k: int| 0 <= k < i ==> !is_terminal(#[trigger] msgs[k]),
    ensures
        first_terminal(msgs) == i,
        drained_batches(msgs) == drained_batches(msgs.take(i)),
    decreases i,
{
    if i == 0 {
        assert(drained_batches(msgs.take(0int)) =~= drained_batches(msgs));
    } else {
        let t = msgs.drop_first();
        assert(forall|k: int| 0 <= k < i - 1 ==> !is_terminal(#[trigger] t[k]));
        assert(t[i - 1] == msgs[i]);
        lemma_drained_stops_at_terminal(t, i - 1);
        assert(msgs.take(i)[0] == msgs[0]);
        assert(msgs.take(i).drop_first() =~= t.take(i - 1));
        assert(drained_batches(msgs) == batch_content(msgs[0]) + drained_batches(t));
        assert(drained_batches(msgs.take(i)) == batch_content(msgs[0]) + drained_batches(
            t.take(i - 1),
        ));
    }
}

} // verus!

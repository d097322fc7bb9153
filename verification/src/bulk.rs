//! The recursive delete executor: each listing page's keys are grouped into
//! bulk-delete calls of at most 1000 keys, and a running count accumulates
//! across pages until the pagination ends.

use vstd::prelude::*;

verus! {

/// The bulk-delete call cap of the store.
pub const BULK_DELETE_LIMIT: usize = 1000;

/// How many bulk-delete calls a page of `n` keys needs.
pub open spec fn batches_needed(n: int) -> int {
    (n + 999) / 1000
}

/// All the batches' keys, in order.
pub open spec fn concat_keys(bs: Seq<Seq<String>>) -> Seq<String>
    decreases bs.len(),
{
    if bs.len() == 0 {
        Seq::empty()
    } else {
        bs[0] + concat_keys(bs.drop_first())
    }
}

/// The views of a vector of key batches.
pub open spec fn batch_views(bs: Seq<Vec<String>>) -> Seq<Seq<String>> {
    bs.map_values(|v: Vec<String>| v@)
}

/// Appending one batch appends its keys.
proof fn lemma_concat_keys_push(bs: Seq<Seq<String>>, x: Seq<String>)
    ensures
        concat_keys(bs.push(x)) == concat_keys(bs) + x,
    decreases bs.len(),
{
    if bs.len() == 0 {
        assert(bs.push(x)[0] == x);
        assert(bs.push(x).drop_first() =~= bs);
        assert(concat_keys(bs.push(x)) == x + concat_keys(bs));
        assert(x + Seq::<String>::empty() =~= x);
        assert(Seq::<String>::empty() + x =~= x);
    } else {
        assert(bs.push(x)[0] == bs[0]);
        assert(bs.push(x).drop_first() =~= bs.drop_first().push(x));
        lemma_concat_keys_push(bs.drop_first(), x);
        assert(bs[0] + (concat_keys(bs.drop_first()) + x) =~= (bs[0] + concat_keys(
            bs.drop_first(),
        )) + x);
    }
}

/// A running recursive delete: the total number of keys deleted so far.
pub struct DeletePrefixRun {
    pub deleted: usize,
}

impl DeletePrefixRun {
    /// A fresh run: nothing deleted yet.
    pub fn new() -> (r: Self)
        ensures
            r.deleted == 0,
    {
        DeletePrefixRun { deleted: 0 }
    }

    /// Group one page's keys into bulk-delete calls: every call carries at
    /// most 1000 keys, every call but the last exactly 1000, the calls
    /// partition the page in order, and exactly ceil(n / 1000) calls are
    /// issued.  The page's key count joins the running total.
    pub fn batches_for_page(&mut self, keys: Vec<String>) -> (batches: Vec<Vec<String>>)
        requires
            old(self).deleted + keys@.len() <= usize::MAX,
        ensures
            final(self).deleted == old(self).deleted + keys@.len(),
            concat_keys(batch_views(batches@)) == keys@,
            batches@.len() == batches_needed(keys@.len() as int),
            forall|b: int| 0 <= b < batches@.len() ==> 0 < (#[trigger] batches@[b])@.len() <= 1000,
            forall|b: int| 0 <= b < batches@.len() - 1 ==> (#[trigger] batches@[b])@.len() == 1000,
    {
        let total = keys.len();
        self.deleted = self.deleted + total;
        let mut batches: Vec<Vec<String>> = Vec::new();
        let mut pos: usize = 0;
        proof {
            assert(concat_keys(batch_views(batches@)) =~= keys@.take(0int));
            assert(batches_needed(0int) == 0);
        }
        while pos < total
            invariant
                pos <= total,
                total == keys@.len(),
                concat_keys(batch_views(batches@)) == keys@.take(pos as int),
                batches@.len() == batches_needed(pos as int),
                forall|b: int|
                    0 <= b < batches@.len() ==> 0 < (#[trigger] batches@[b])@.len() <= 1000,
                forall|b: int|
                    0 <= b < batches@.len() - 1 ==> (#[trigger] batches@[b])@.len() == 1000,
                pos < total ==> forall|b: int|
                    0 <= b < batches@.len() ==> (#[trigger] batches@[b])@.len() == 1000,
                pos < total ==> pos == 1000 * batches@.len(),
            decreases total - pos,
        {
            let room = total - pos;
            let take: usize = if room >= 1000 {
                1000
            } else {
                room
            };
            let mut chunk: Vec<String> = Vec::new();
            let mut j: usize = 0;
            proof {
                assert(chunk@ =~= keys@.subrange(pos as int, pos as int));
            }
            while j < take
                invariant
                    j <= take,
                    pos + take <= total,
                    total == keys@.len(),
                    chunk@ == keys@.subrange(pos as int, pos + j),
                decreases take - j,
            {
                chunk.push(keys[pos + j].clone());
                j = j + 1;
                proof {
                    assert(keys@.subrange(pos as int, pos + j) =~= keys@.subrange(
                        pos as int,
                        pos + j - 1,
                    ).push(keys@[pos + j - 1]));
                }
            }
            let ghost old_batches = batches@;
            let ghost old_pos = pos as int;
            batches.push(chunk);
            pos = pos + take;
            proof {
                assert(batch_views(batches@) =~= batch_views(old_batches).push(
                    keys@.subrange(old_pos, old_pos + take as int),
                ));
                lemma_concat_keys_push(
                    batch_views(old_batches),
                    keys@.subrange(old_pos, old_pos + take as int),
                );
                assert(keys@.take(old_pos) + keys@.subrange(old_pos, old_pos + take as int)
                    =~= keys@.take(old_pos + take as int));
                let k = old_batches.len() as int;
                assert(old_pos == 1000 * k);
                assert(batches_needed(old_pos) == k) by {
                    vstd::arithmetic::div_mod::lemma_div_multiples_vanish_fancy(k, 999int, 1000int);
                }
                assert(batches_needed(old_pos + take as int) == k + 1) by {
                    assert(old_pos + take + 999 == 1000 * (k + 1) + (take - 1));
                    vstd::arithmetic::div_mod::lemma_div_multiples_vanish_fancy(
                        k + 1,
                        take as int - 1,
                        1000int,
                    );
                }
            }
        }
        proof {
            assert(keys@.take(total as int) =~= keys@);
        }
        batches
    }
}

/// The sum of a sequence of page sizes.
pub open spec fn sum_of(s: Seq<int>) -> int
    decreases s.len(),
{
    if s.len() == 0 {
        0
    } else {
        s[0] + sum_of(s.drop_first())
    }
}

/// The total number of bulk-delete calls over a sequence of page sizes.
pub open spec fn sum_batches(s: Seq<int>) -> int
    decreases s.len(),
{
    if s.len() == 0 {
        0
    } else {
        batches_needed(s[0]) + sum_batches(s.drop_first())
    }
}

proof fn lemma_sum_nonneg(s: Seq<int>)
    requires
        forall|i: int| 0 <= i < s.len() ==> 0 <= #[trigger] s[i],
    ensures
        0 <= sum_of(s),
    decreases s.len(),
{
    if s.len() > 0 {
        assert(forall|i: int| 0 <= i < s.drop_first().len() ==> 0 <= #[trigger] s.drop_first()[i]);
        lemma_sum_nonneg(s.drop_first());
    }
}

/// Law: over listing pages that are each a whole number of bulk-delete
/// batches except possibly the last (as full listing pages are), the executor
/// issues exactly ceil(total keys / 1000) bulk-delete calls, and the running
/// count it returns is exactly the number of keys enumerated.
pub proof fn lemma_delete_prefix_call_count(pages: Seq<int>)
    requires
        forall|i: int| 0 <= i < pages.len() ==> 0 <= #[trigger] pages[i],
        forall|i: int| 0 <= i < pages.len() - 1 ==> #[trigger] pages[i] % 1000 == 0,
    ensures
        sum_batches(pages) == batches_needed(sum_of(pages)),
    decreases pages.len(),
{
    if pages.len() == 0 {
        assert(batches_needed(0int) == 0);
    } else if pages.len() == 1 {
        assert(sum_of(pages.drop_first()) == 0);
        assert(sum_batches(pages.drop_first()) == 0);
        assert(sum_of(pages) == pages[0]);
        assert(sum_batches(pages) == batches_needed(pages[0]));
    } else {
        let t = pages.drop_first();
        assert(forall|i: int| 0 <= i < t.len() ==> 0 <= #[trigger] t[i]);
        assert(forall|i: int| 0 <= i < t.len() - 1 ==> #[trigger] t[i] % 1000 == 0);
        lemma_delete_prefix_call_count(t);
        lemma_sum_nonneg(t);
        let a = pages[0];
        let x = sum_of(t);
        let q = a / 1000;
        vstd::arithmetic::div_mod::lemma_fundamental_div_mod(a, 1000int);
        assert(a == 1000 * q);
        assert(batches_needed(a) == q) by {
            vstd::arithmetic::div_mod::lemma_div_multiples_vanish_fancy(q, 999int, 1000int);
        }
        assert(batches_needed(a + x) == q + batches_needed(x)) by {
            vstd::arithmetic::div_mod::lemma_hoist_over_denominator(x + 999, q, 1000nat);
            assert((x + 999) / 1000 + q == (x + 999 + q * 1000) / 1000);
            assert(a + x + 999 == x + 999 + q * 1000);
        }
        assert(sum_batches(pages) == batches_needed(a) + sum_batches(t));
        assert(sum_of(pages) == a + x);
        assert(sum_batches(pages) == q + batches_needed(x));
        assert(batches_needed(sum_of(pages)) == q + batches_needed(x));
    }
}

} // verus!

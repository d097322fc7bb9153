//! Verified insertion sorts for the two listings the session orders: remote
//! aliases (lexicographic) and local-filesystem rows (directories first, then
//! case-insensitive name).

use vstd::prelude::*;
use vstd::relations::sorted_by;
use crate::data::LocalEntry;
use crate::strings::{lex_leq, lower_of, lowercase, str_lex_leq};
use crate::strings::{lemma_lex_leq_connected, lemma_lex_leq_transitive};

verus! {

/// The order of the remote list: lexicographic by scalar value.
pub open spec fn string_leq() -> spec_fn(String, String) -> bool {
    |x: String, y: String| lex_leq(x@, y@)
}

/// The order of the local pane: directories before files, then by
/// lowercased name.
pub open spec fn local_entry_leq_spec(a: LocalEntry, b: LocalEntry) -> bool {
    if a.is_dir != b.is_dir {
        a.is_dir
    } else {
        lex_leq(lower_of(a.name@), lower_of(b.name@))
    }
}

pub open spec fn local_leq() -> spec_fn(LocalEntry, LocalEntry) -> bool {
    |a: LocalEntry, b: LocalEntry| local_entry_leq_spec(a, b)
}

/// Inserting an element anywhere adds exactly that element to the multiset.
pub proof fn lemma_insert_to_multiset<A>(s: Seq<A>, p: int, x: A)
    requires
        0 <= p <= s.len(),
    ensures
        s.insert(p, x).to_multiset() == s.to_multiset().insert(x),
{
    broadcast use vstd::seq_lib::lemma_multiset_commutative;
    broadcast use vstd::seq_lib::group_to_multiset_ensures;
    broadcast use vstd::multiset::group_multiset_axioms;

    let l = s.subrange(0, p);
    let r = s.subrange(p, s.len() as int);
    assert(s =~= l + r);
    assert(s.insert(p, x) == l.push(x) + r);
    assert((l.push(x) + r).to_multiset() =~= l.to_multiset().add(r.to_multiset()).insert(x));
    assert((l + r).to_multiset() =~= l.to_multiset().add(r.to_multiset()));
}

/// Inserting between the elements at or below and the elements above keeps a
/// sequence sorted.
pub proof fn lemma_sorted_insert<A>(s: Seq<A>, p: int, x: A, leq: spec_fn(A, A) -> bool)
    requires
        sorted_by(s, leq),
        0 <= p <= s.len(),
        forall|k: int| 0 <= k < p ==> leq(s[k], x),
        forall|k: int| p <= k < s.len() ==> leq(x, s[k]),
    ensures
        sorted_by(s.insert(p, x), leq),
{
    let ins = s.insert(p, x);
    s.insert_ensures(p, x);
    assert forall|i: int, j: int| 0 <= i < j < ins.len() implies leq(ins[i], ins[j]) by {
        if j < p {
            assert(ins[i] == s[i] && ins[j] == s[j]);
        } else if j == p {
            assert(ins[i] == s[i] && ins[j] == x);
        } else if i < p {
            assert(ins[i] == s[i]);
            assert(ins[j] == s[j - 1]);
            assert(leq(s[i], s[j - 1]));
        } else if i == p {
            assert(ins[i] == x && ins[j] == s[j - 1]);
        } else {
            assert(ins[i] == s[i - 1] && ins[j] == s[j - 1]);
        }
    }
}

/// Sort the remote aliases lexicographically.
pub fn sort_strings(v: Vec<String>) -> (r: Vec<String>)
    ensures
        sorted_by(r@, string_leq()),
        r@.to_multiset() == v@.to_multiset(),
{
    let mut out: Vec<String> = Vec::new();
    let mut i: usize = 0;
    proof {
        broadcast use vstd::seq_lib::group_to_multiset_ensures;

        assert(v@.take(0int).to_multiset() =~= out@.to_multiset());
    }
    while i < v.len()
        invariant
            i <= v@.len(),
            sorted_by(out@, string_leq()),
            out@.to_multiset() == v@.take(i as int).to_multiset(),
        decreases v@.len() - i,
    {
        let x = v[i].clone();
        let ghost prev = out@;
        let mut p: usize = 0;
        while p < out.len() && str_lex_leq(out[p].as_str(), x.as_str())
            invariant
                p <= out@.len(),
                x == v@[i as int],
                out@ == prev,
                forall|k: int| 0 <= k < p ==> lex_leq(out@[k]@, x@),
            decreases out@.len() - p,
        {
            p = p + 1;
        }
        proof {
            if p < out@.len() {
                lemma_lex_leq_connected(out@[p as int]@, x@);
                assert forall|k: int| p <= k < out@.len() implies lex_leq(x@, out@[k]@) by {
                    if k > p {
                        assert(string_leq()(out@[p as int], out@[k]));
                        lemma_lex_leq_transitive(x@, out@[p as int]@, out@[k]@);
                    }
                }
            }
            lemma_sorted_insert(out@, p as int, x, string_leq());
            lemma_insert_to_multiset(out@, p as int, x);
        }
        out.insert(p, x);
        i = i + 1;
        proof {
            broadcast use vstd::seq_lib::group_to_multiset_ensures;

            assert(v@.take(i as int) =~= v@.take(i - 1).push(v@[i - 1]));
        }
    }
    proof {
        assert(v@.take(v@.len() as int) =~= v@);
    }
    out
}

/// The exec comparator of the local pane.
pub fn local_entry_leq(a: &LocalEntry, b: &LocalEntry) -> (r: bool)
    ensures
        r == local_entry_leq_spec(*a, *b),
{
    if a.is_dir != b.is_dir {
        a.is_dir
    } else {
        let la = lowercase(a.name.as_str());
        let lb = lowercase(b.name.as_str());
        str_lex_leq(la.as_str(), lb.as_str())
    }
}

proof fn lemma_local_leq_connected(a: LocalEntry, b: LocalEntry)
    ensures
        local_entry_leq_spec(a, b) || local_entry_leq_spec(b, a),
{
    if a.is_dir == b.is_dir {
        lemma_lex_leq_connected(lower_of(a.name@), lower_of(b.name@));
    }
}

proof fn lemma_local_leq_transitive(a: LocalEntry, b: LocalEntry, c: LocalEntry)
    requires
        local_entry_leq_spec(a, b),
        local_entry_leq_spec(b, c),
    ensures
        local_entry_leq_spec(a, c),
{
    if a.is_dir == b.is_dir && b.is_dir == c.is_dir {
        lemma_lex_leq_transitive(lower_of(a.name@), lower_of(b.name@), lower_of(c.name@));
    }
}

/// Sort the local pane: directories first, then case-insensitive name order.
pub fn sort_local_entries(v: Vec<LocalEntry>) -> (r: Vec<LocalEntry>)
    ensures
        sorted_by(r@, local_leq()),
        r@.to_multiset() == v@.to_multiset(),
{
    let mut out: Vec<LocalEntry> = Vec::new();
    let mut i: usize = 0;
    proof {
        broadcast use vstd::seq_lib::group_to_multiset_ensures;

        assert(v@.take(0int).to_multiset() =~= out@.to_multiset());
    }
    while i < v.len()
        invariant
            i <= v@.len(),
            sorted_by(out@, local_leq()),
            out@.to_multiset() == v@.take(i as int).to_multiset(),
        decreases v@.len() - i,
    {
        let x = v[i].clone();
        let ghost prev = out@;
        let mut p: usize = 0;
        while p < out.len() && local_entry_leq(&out[p], &x)
            invariant
                p <= out@.len(),
                x == v@[i as int],
                out@ == prev,
                forall|k: int| 0 <= k < p ==> local_entry_leq_spec(out@[k], x),
            decreases out@.len() - p,
        {
            p = p + 1;
        }
        proof {
            if p < out@.len() {
                lemma_local_leq_connected(out@[p as int], x);
                assert forall|k: int| p <= k < out@.len() implies local_entry_leq_spec(
                    x,
                    out@[k],
                ) by {
                    if k > p {
                        assert(local_leq()(out@[p as int], out@[k]));
                        lemma_local_leq_transitive(x, out@[p as int], out@[k]);
                    }
                }
            }
            lemma_sorted_insert(out@, p as int, x, local_leq());
            lemma_insert_to_multiset(out@, p as int, x);
        }
        out.insert(p, x);
        i = i + 1;
        proof {
            broadcast use vstd::seq_lib::group_to_multiset_ensures;

            assert(v@.take(i as int) =~= v@.take(i - 1).push(v@[i - 1]));
        }
    }
    proof {
        assert(v@.take(v@.len() as int) =~= v@);
    }
    out
}

} // verus!

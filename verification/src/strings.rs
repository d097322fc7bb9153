//! Verified text helpers: substring search, prefix handling, key-path
//! parenting and lexicographic comparison, plus thin trusted wrappers around
//! the few `str`/`String` operations that vstd gives no specification for.

use vstd::prelude::*;

verus! {

/// What `str::to_lowercase` returns for a given character sequence.
pub uninterp spec fn lower_of(s: Seq<char>) -> Seq<char>;

/// Relies on str::to_lowercase: the result depends on the characters alone,
/// and lowercasing an empty string yields an empty string.
#[verifier::external_body]
pub fn lowercase(s: &str) -> (r: String)
    ensures
        r@ == lower_of(s@),
        s@.len() == 0 ==> r@.len() == 0,
{
    s.to_lowercase()
}

/// Relies on str's PartialEq: two slices are equal exactly when their
/// character sequences are equal.
#[verifier::external_body]
pub fn str_eq(a: &str, b: &str) -> (r: bool)
    ensures
        r == (a@ == b@),
{
    a == b
}

/// Relies on String::push: appends exactly the one character.
#[verifier::external_body]
pub fn push_char(s: &mut String, c: char)
    ensures
        final(s)@ == old(s)@.push(c),
{
    s.push(c)
}

/// Relies on String::pop: removes and returns the last character, if any.
#[verifier::external_body]
pub fn pop_char(s: &mut String) -> (r: Option<char>)
    ensures
        old(s)@.len() == 0 ==> final(s)@ == old(s)@ && r is None,
        old(s)@.len() > 0 ==> final(s)@ == old(s)@.drop_last() && r == Some(old(s)@.last()),
{
    s.pop()
}

/// `needle` occurs as a contiguous run somewhere in `hay`.
pub open spec fn contains_seq(hay: Seq<char>, needle: Seq<char>) -> bool {
    exists|i: int|
        0 <= i <= hay.len() - needle.len() && #[trigger] hay.subrange(i, i + needle.len())
            == needle
}

/// Substring search over character sequences.
pub fn str_contains(hay: &str, needle: &str) -> (r: bool)
    ensures
        r == contains_seq(hay@, needle@),
{
    let hl = hay.unicode_len();
    let nl = needle.unicode_len();
    if nl > hl {
        return false;
    }
    if nl == 0 {
        assert(contains_seq(hay@, needle@)) by {
            assert(hay@.subrange(0, 0 + needle@.len() as int) =~= needle@);
        }
        return true;
    }
    let mut i: usize = 0;
    while i <= hl - nl
        invariant
            0 < nl <= hl,
            hl == hay@.len(),
            nl == needle@.len(),
            i <= hl - nl + 1,
            forall|j: int| 0 <= j < i ==> #[trigger] hay@.subrange(j, j + nl) != needle@,
        decreases hl - nl + 1 - i,
    {
        let sub = hay.substring_char(i, i + nl);
        if str_eq(sub, needle) {
            assert(contains_seq(hay@, needle@)) by {
                assert(hay@.subrange(i as int, i + nl) == needle@);
            }
            return true;
        }
        i = i + 1;
    }
    false
}

/// `p` is a prefix of `s`.
pub open spec fn is_prefix(p: Seq<char>, s: Seq<char>) -> bool {
    p.len() <= s.len() && s.subrange(0, p.len() as int) == p
}

/// Prefix test over character sequences.
pub fn str_starts_with(s: &str, p: &str) -> (r: bool)
    ensures
        r == is_prefix(p@, s@),
{
    let sl = s.unicode_len();
    let pl = p.unicode_len();
    if pl > sl {
        return false;
    }
    let head = s.substring_char(0, pl);
    str_eq(head, p)
}

/// The remainder of `s` after a prefix `p`, or all of `s` when `p` is not a
/// prefix (the behaviour of `strip_prefix(..).unwrap_or(..)`).
pub open spec fn strip_prefix_of(p: Seq<char>, s: Seq<char>) -> Seq<char> {
    if is_prefix(p, s) {
        s.subrange(p.len() as int, s.len() as int)
    } else {
        s
    }
}

pub fn strip_prefix_or_self(s: &str, p: &str) -> (r: String)
    ensures
        r@ == strip_prefix_of(p@, s@),
{
    let sl = s.unicode_len();
    let pl = p.unicode_len();
    if str_starts_with(s, p) {
        let rest = s.substring_char(pl, sl);
        rest.to_owned()
    } else {
        s.to_owned()
    }
}

/// `s` ends with a `/` separator.
pub open spec fn ends_with_slash(s: Seq<char>) -> bool {
    s.len() > 0 && s.last() == '/'
}

pub fn str_ends_with_slash(s: &str) -> (r: bool)
    ensures
        r == ends_with_slash(s@),
{
    let l = s.unicode_len();
    if l == 0 {
        return false;
    }
    let c = s.get_char(l - 1);
    c == '/'
}

/// `s` with every trailing `/` removed.
pub open spec fn trim_slashes(s: Seq<char>) -> Seq<char>
    decreases s.len(),
{
    if s.len() > 0 && s.last() == '/' {
        trim_slashes(s.drop_last())
    } else {
        s
    }
}

/// Drop every trailing `/` of `s`.
pub fn trim_trailing_slashes(s: &str) -> (r: String)
    ensures
        r@ == trim_slashes(s@),
{
    let len = s.unicode_len();
    let mut end: usize = len;
    proof {
        assert(s@.take(len as int) =~= s@);
    }
    while end > 0 && s.get_char(end - 1) == '/'
        invariant
            end <= len,
            len == s@.len(),
            trim_slashes(s@) == trim_slashes(s@.take(end as int)),
        decreases end,
    {
        proof {
            assert(s@.take(end as int).drop_last() =~= s@.take(end - 1));
        }
        end = end - 1;
    }
    proof {
        if end > 0 {
            assert(s@.take(end as int).last() == s@[end - 1]);
        }
        assert(trim_slashes(s@.take(end as int)) == s@.take(end as int));
        assert(s@.subrange(0, end as int) =~= s@.take(end as int));
    }
    let head = s.substring_char(0, end);
    head.to_owned()
}

/// The prefix of `t` up to and including its last `/`, or empty when `t`
/// holds no `/`.
pub open spec fn parent_of(t: Seq<char>) -> Seq<char>
    decreases t.len(),
{
    if t.len() == 0 {
        Seq::empty()
    } else if t.last() == '/' {
        t
    } else {
        parent_of(t.drop_last())
    }
}

/// The key of the directory that holds `s`: trailing separators are dropped,
/// then everything after the last remaining separator.
pub open spec fn parent_prefix_of(s: Seq<char>) -> Seq<char> {
    parent_of(trim_slashes(s))
}

/// The parent directory prefix of a key (`"a/b/c.txt"` gives `"a/b/"`,
/// `"a/b/"` gives `"a/"`, a top-level key gives `""`).
pub fn parent_prefix(key: &str) -> (r: String)
    ensures
        r@ == parent_prefix_of(key@),
{
    let len = key.unicode_len();
    let mut end: usize = len;
    proof {
        assert(key@.take(len as int) =~= key@);
    }
    while end > 0 && key.get_char(end - 1) == '/'
        invariant
            end <= len,
            len == key@.len(),
            trim_slashes(key@) == trim_slashes(key@.take(end as int)),
        decreases end,
    {
        proof {
            assert(key@.take(end as int).drop_last() =~= key@.take(end - 1));
        }
        end = end - 1;
    }
    proof {
        if end > 0 {
            assert(key@.take(end as int).last() == key@[end - 1]);
        }
        assert(trim_slashes(key@.take(end as int)) == key@.take(end as int));
    }
    let mut pos: usize = end;
    while pos > 0 && key.get_char(pos - 1) != '/'
        invariant
            pos <= end <= len,
            len == key@.len(),
            parent_of(key@.take(end as int)) == parent_of(key@.take(pos as int)),
        decreases pos,
    {
        proof {
            assert(key@.take(pos as int).drop_last() =~= key@.take(pos - 1));
            assert(key@.take(pos as int).last() == key@[pos - 1]);
        }
        pos = pos - 1;
    }
    proof {
        if pos > 0 {
            assert(key@.take(pos as int).last() == key@[pos - 1]);
        }
    }
    let head = key.substring_char(0, pos);
    let r = head.to_owned();
    proof {
        assert(key@.subrange(0, pos as int) =~= key@.take(pos as int));
    }
    r
}

/// The character of one decimal digit.
pub open spec fn digit_char(d: int) -> char {
    ((48 + d) as u8) as char
}

/// The decimal text of a non-negative number.
pub open spec fn dec_of(n: int) -> Seq<char>
    decreases n,
{
    if n < 0 {
        Seq::empty()
    } else if n < 10 {
        seq![digit_char(n)]
    } else {
        dec_of(n / 10).push(digit_char(n % 10))
    }
}

/// Decimal formatting of a number.
pub fn u64_to_string(n: u64) -> (r: String)
    ensures
        r@ == dec_of(n as int),
    decreases n,
{
    if n < 10 {
        let mut s = String::new();
        let d: u8 = n as u8;
        push_char(&mut s, (48u8 + d) as char);
        proof {
            assert(Seq::<char>::empty().push(digit_char(n as int)) =~= seq![digit_char(n as int)]);
        }
        s
    } else {
        let mut s = u64_to_string(n / 10);
        let d: u8 = (n % 10) as u8;
        push_char(&mut s, (48u8 + d) as char);
        s
    }
}

/// Lexicographic order on character sequences by scalar value; the order in
/// which `str`'s own comparison sorts.
pub open spec fn lex_leq(a: Seq<char>, b: Seq<char>) -> bool
    decreases a.len(),
{
    if a.len() == 0 {
        true
    } else if b.len() == 0 {
        false
    } else if (a[0] as u32) < (b[0] as u32) {
        true
    } else if (b[0] as u32) < (a[0] as u32) {
        false
    } else {
        lex_leq(a.drop_first(), b.drop_first())
    }
}

/// Any two sequences are comparable under `lex_leq`.
pub proof fn lemma_lex_leq_connected(a: Seq<char>, b: Seq<char>)
    ensures
        lex_leq(a, b) || lex_leq(b, a),
    decreases a.len(),
{
    if a.len() == 0 || b.len() == 0 {
    } else if (a[0] as u32) < (b[0] as u32) || (b[0] as u32) < (a[0] as u32) {
    } else {
        lemma_lex_leq_connected(a.drop_first(), b.drop_first());
    }
}

/// `lex_leq` is transitive.
pub proof fn lemma_lex_leq_transitive(a: Seq<char>, b: Seq<char>, c: Seq<char>)
    requires
        lex_leq(a, b),
        lex_leq(b, c),
    ensures
        lex_leq(a, c),
    decreases a.len(),
{
    if a.len() == 0 {
    } else if b.len() == 0 {
    } else if c.len() == 0 {
    } else {
        if (a[0] as u32) == (b[0] as u32) && (b[0] as u32) == (c[0] as u32) {
            lemma_lex_leq_transitive(a.drop_first(), b.drop_first(), c.drop_first());
        }
    }
}

/// Character-by-character comparison against `lex_leq`.
pub fn str_lex_leq(a: &str, b: &str) -> (r: bool)
    ensures
        r == lex_leq(a@, b@),
{
    let al = a.unicode_len();
    let bl = b.unicode_len();
    let mut i: usize = 0;
    proof {
        assert(a@.skip(0) =~= a@);
        assert(b@.skip(0) =~= b@);
    }
    loop
        invariant
            i <= al,
            i <= bl,
            al == a@.len(),
            bl == b@.len(),
            lex_leq(a@, b@) == lex_leq(a@.skip(i as int), b@.skip(i as int)),
        decreases al - i,
    {
        if i == al {
            proof {
                assert(a@.skip(i as int).len() == 0);
            }
            return true;
        }
        if i == bl {
            proof {
                assert(b@.skip(i as int).len() == 0);
                assert(a@.skip(i as int).len() > 0);
            }
            return false;
        }
        let ca = a.get_char(i);
        let cb = b.get_char(i);
        proof {
            assert(a@.skip(i as int)[0] == a@[i as int]);
            assert(b@.skip(i as int)[0] == b@[i as int]);
        }
        if (ca as u32) < (cb as u32) {
            return true;
        }
        if (cb as u32) < (ca as u32) {
            return false;
        }
        proof {
            assert(a@.skip(i as int).drop_first() =~= a@.skip(i + 1));
            assert(b@.skip(i as int).drop_first() =~= b@.skip(i + 1));
        }
        i = i + 1;
    }
}

} // verus!

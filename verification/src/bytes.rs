//! Byte-sequence utilities for the credential store.
//!
//! Account records are newline-delimited `name:digest` lines.  The store
//! needs to trim ASCII whitespace, split on a separator byte and compare
//! byte strings; the functions here do that over `Vec<u8>`, each proved
//! against a spec function over `Seq<u8>`.

use vstd::prelude::*;

verus! {

/// Byte value of `:`, the separator between a username and a digest.
pub const COLON: u8 = 58;

/// Byte value of `\n`, the separator between account records.
pub const NEWLINE: u8 = 10;

/// ASCII whitespace, as trimmed from names and digests.
pub open spec fn is_space(b: u8) -> bool {
    b == 32 || b == 9 || b == 10 || b == 11 || b == 12 || b == 13
}

/// `s` without its leading ASCII whitespace.
pub open spec fn trim_start(s: Seq<u8>) -> Seq<u8>
    decreases s.len(),
{
    if s.len() > 0 && is_space(s.first()) {
        trim_start(s.drop_first())
    } else {
        s
    }
}

/// `s` without its trailing ASCII whitespace.
pub open spec fn trim_end(s: Seq<u8>) -> Seq<u8>
    decreases s.len(),
{
    if s.len() > 0 && is_space(s.last()) {
        trim_end(s.drop_last())
    } else {
        s
    }
}

/// `s` without leading and trailing ASCII whitespace.
pub open spec fn trim(s: Seq<u8>) -> Seq<u8> {
    trim_end(trim_start(s))
}

/// A sequence that neither starts nor ends with whitespace trims to itself.
pub proof fn lemma_trim_id(s: Seq<u8>)
    requires
        s.len() > 0 ==> !is_space(s.first()) && !is_space(s.last()),
    ensures
        trim(s) == s,
{
}

fn is_space_byte(b: u8) -> (r: bool)
    ensures
        r == is_space(b),
{
    b == 32 || b == 9 || b == 10 || b == 11 || b == 12 || b == 13
}

/// Copy of a byte vector.
pub fn copy_bytes(s: &Vec<u8>) -> (r: Vec<u8>)
    ensures
        r@ == s@,
{
    let n = s.len();
    let mut r: Vec<u8> = Vec::new();
    let mut i: usize = 0;
    while i < n
        invariant
            n == s@.len(),
            i <= n,
            r@ == s@.subrange(0, i as int),
        decreases n - i,
    {
        r.push(s[i]);
        i = i + 1;
        proof {
            assert(r@ =~= s@.subrange(0, i as int));
        }
    }
    proof {
        assert(r@ =~= s@);
    }
    r
}

/// Byte-wise equality of two vectors.
pub fn bytes_eq(a: &Vec<u8>, b: &Vec<u8>) -> (r: bool)
    ensures
        r == (a@ == b@),
{
    if a.len() != b.len() {
        return false;
    }
    let n = a.len();
    let mut i: usize = 0;
    while i < n
        invariant
            n == a@.len(),
            n == b@.len(),
            i <= n,
            forall|j: int| 0 <= j < i ==> a@[j] == b@[j],
        decreases n - i,
    {
        if a[i] != b[i] {
            return false;
        }
        i = i + 1;
    }
    proof {
        assert(a@ =~= b@);
    }
    true
}

/// Trim ASCII whitespace from both ends of `s`.
pub fn trim_bytes(s: &Vec<u8>) -> (r: Vec<u8>)
    ensures
        r@ == trim(s@),
{
    let n = s.len();
    let mut lo: usize = 0;
    proof {
        assert(s@.skip(0) =~= s@);
    }
    while lo < n && is_space_byte(s[lo])
        invariant
            n == s@.len(),
            lo <= n,
            trim_start(s@) == trim_start(s@.skip(lo as int)),
        decreases n - lo,
    {
        proof {
            assert(s@.skip(lo as int).drop_first() =~= s@.skip(lo as int + 1));
        }
        lo = lo + 1;
    }
    proof {
        if lo == n {
            assert(s@.skip(lo as int) =~= Seq::<u8>::empty());
        }
        assert(trim_start(s@) == s@.skip(lo as int));
    }
    let t_len = n - lo;
    let mut hi: usize = t_len;
    let ghost t = s@.skip(lo as int);
    proof {
        assert(t.take(t_len as int) =~= t);
    }
    while hi > 0 && is_space_byte(s[lo + hi - 1])
        invariant
            n == s@.len(),
            lo <= n,
            hi <= t_len,
            t_len == n - lo,
            t == s@.skip(lo as int),
            trim_end(t) == trim_end(t.take(hi as int)),
        decreases hi,
    {
        proof {
            assert(t.take(hi as int).last() == s@[lo + hi - 1]);
            assert(t.take(hi as int).drop_last() =~= t.take(hi as int - 1));
        }
        hi = hi - 1;
    }
    proof {
        if hi == 0 {
            assert(t.take(0) =~= Seq::<u8>::empty());
        } else {
            assert(t.take(hi as int).last() == s@[lo + hi - 1]);
        }
        assert(trim_end(t) == t.take(hi as int));
    }
    let mut r: Vec<u8> = Vec::new();
    let mut j: usize = 0;
    while j < hi
        invariant
            n == s@.len(),
            lo <= n,
            hi <= n - lo,
            j <= hi,
            r@ == s@.subrange(lo as int, lo as int + j as int),
        decreases hi - j,
    {
        r.push(s[lo + j]);
        j = j + 1;
        proof {
            assert(r@ =~= s@.subrange(lo as int, lo as int + j as int));
        }
    }
    proof {
        assert(r@ =~= t.take(hi as int));
    }
    r
}

/// `s` split on separator byte `sep`.  Splitting always yields at least
/// one segment; `n` separators yield `n + 1` segments, and none of the
/// segments contains `sep`.
pub open spec fn split(s: Seq<u8>, sep: u8) -> Seq<Seq<u8>>
    decreases s.len(),
{
    if s.len() == 0 {
        seq![Seq::<u8>::empty()]
    } else if s.first() == sep {
        seq![Seq::<u8>::empty()] + split(s.drop_first(), sep)
    } else {
        let rest = split(s.drop_first(), sep);
        seq![seq![s.first()] + rest.first()] + rest.drop_first()
    }
}

pub proof fn lemma_split_len(s: Seq<u8>, sep: u8)
    ensures
        split(s, sep).len() >= 1,
    decreases s.len(),
{
    if s.len() > 0 {
        lemma_split_len(s.drop_first(), sep);
    }
}

/// A sequence without the separator splits into exactly itself.
pub proof fn lemma_split_no_sep(s: Seq<u8>, sep: u8)
    requires
        forall|i: int| 0 <= i < s.len() ==> s[i] != sep,
    ensures
        split(s, sep) == seq![s],
    decreases s.len(),
{
    if s.len() == 0 {
        assert(s =~= Seq::<u8>::empty());
        assert(split(s, sep) =~~= seq![s]);
    } else {
        lemma_split_no_sep(s.drop_first(), sep);
        assert(seq![s.drop_first()].first() == s.drop_first());
        assert(seq![s.first()] + s.drop_first() =~= s);
        assert(seq![s.drop_first()].drop_first() =~= Seq::<Seq<u8>>::empty());
        assert(split(s, sep) =~~= seq![s]);
    }
}

/// Splitting `a ++ sep ++ b` where `a` is separator-free peels `a` off
/// as the first segment.
pub proof fn lemma_split_concat(a: Seq<u8>, b: Seq<u8>, sep: u8)
    requires
        forall|i: int| 0 <= i < a.len() ==> a[i] != sep,
    ensures
        split(a + seq![sep] + b, sep) == seq![a] + split(b, sep),
    decreases a.len(),
{
    let s = a + seq![sep] + b;
    if a.len() == 0 {
        assert(s.first() == sep);
        assert(s.drop_first() =~= b);
        assert(a =~= Seq::<u8>::empty());
        assert(split(s, sep) =~~= seq![a] + split(b, sep));
    } else {
        assert(s.first() == a.first());
        assert(s.drop_first() =~= a.drop_first() + seq![sep] + b);
        lemma_split_concat(a.drop_first(), b, sep);
        let rest = split(s.drop_first(), sep);
        assert(rest == seq![a.drop_first()] + split(b, sep));
        assert(rest.first() == a.drop_first());
        assert(seq![s.first()] + rest.first() =~= a);
        assert(rest.drop_first() =~= split(b, sep));
        assert(split(s, sep) =~~= seq![a] + split(b, sep));
    }
}

/// The views of a sequence of byte vectors.
pub open spec fn views_of(r: Seq<Vec<u8>>) -> Seq<Seq<u8>> {
    Seq::new(r.len(), |i: int| r[i]@)
}

/// `parts` with `c` prefixed onto its first segment.
spec fn prepend_first(c: Seq<u8>, parts: Seq<Seq<u8>>) -> Seq<Seq<u8>> {
    seq![c + parts.first()] + parts.drop_first()
}

/// Split `s` on the separator byte `sep`.
pub fn split_bytes(s: &Vec<u8>, sep: u8) -> (r: Vec<Vec<u8>>)
    ensures
        views_of(r@) == split(s@, sep),
{
    let mut r: Vec<Vec<u8>> = Vec::new();
    let mut cur: Vec<u8> = Vec::new();
    let n = s.len();
    let mut i: usize = 0;
    proof {
        lemma_split_len(s@, sep);
        assert(s@.skip(0) =~= s@);
        assert(views_of(r@) + prepend_first(cur@, split(s@, sep)) =~~= split(s@, sep));
    }
    while i < n
        invariant
            n == s@.len(),
            i <= n,
            split(s@, sep) == views_of(r@) + prepend_first(cur@, split(s@.skip(i as int), sep)),
        decreases n - i,
    {
        let ghost rest = s@.skip(i as int);
        proof {
            assert(rest.first() == s@[i as int]);
            assert(rest.drop_first() =~= s@.skip(i as int + 1));
            lemma_split_len(s@.skip(i as int + 1), sep);
        }
        if s[i] == sep {
            let done = cur;
            cur = Vec::new();
            r.push(done);
            proof {
                let tail = split(s@.skip(i as int + 1), sep);
                assert(split(rest, sep) == seq![Seq::<u8>::empty()] + tail);
                assert(prepend_first(done@, split(rest, sep)) =~~= seq![done@] + tail);
                assert(views_of(r@) =~= views_of(r@.drop_last()) + seq![done@]);
                assert(prepend_first(cur@, tail) =~~= seq![cur@ + tail.first()] + tail.drop_first());
                assert(cur@ + tail.first() =~= tail.first());
                assert(views_of(r@) + prepend_first(cur@, tail) =~~= views_of(r@.drop_last()) + seq![done@]
                    + prepend_first(cur@, tail));
                assert(seq![done@] + prepend_first(cur@, tail) =~~= prepend_first(done@, split(rest, sep)));
                assert(split(s@, sep) =~~= views_of(r@) + prepend_first(cur@, tail));
            }
        } else {
            let b = s[i];
            cur.push(b);
            proof {
                let tail = split(s@.skip(i as int + 1), sep);
                assert(split(rest, sep) == seq![seq![b] + tail.first()] + tail.drop_first());
                assert(cur@ =~= cur@.drop_last() + seq![b]);
                assert(cur@.drop_last() + (seq![b] + tail.first()) =~= cur@ + tail.first());
                assert(prepend_first(cur@.drop_last(), split(rest, sep)) =~~= prepend_first(cur@, tail));
                assert(split(s@, sep) =~~= views_of(r@) + prepend_first(cur@, tail));
            }
        }
        i = i + 1;
    }
    r.push(cur);
    proof {
        assert(s@.skip(n as int) =~= Seq::<u8>::empty());
        assert(split(s@.skip(n as int), sep) == seq![Seq::<u8>::empty()]);
        assert(prepend_first(cur@, seq![Seq::<u8>::empty()]) =~~= seq![cur@]);
        assert(views_of(r@) =~= views_of(r@.drop_last()) + seq![cur@]);
        assert(views_of(r@) =~~= split(s@, sep));
    }
    r
}

} // verus!

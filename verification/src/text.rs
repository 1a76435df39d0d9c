//! Character-sequence utilities: lexicographic order (used to sort
//! transactions by their ISO date strings) and substring search (used to
//! classify storage-engine error messages).

use vstd::prelude::*;
use vstd::string::*;

verus! {

/// Lexicographic order on character sequences, by code point.  ISO date
/// strings compare chronologically under this order.
pub open spec fn lex_le(a: Seq<char>, b: Seq<char>) -> bool
    decreases a.len(),
{
    if a.len() == 0 {
        true
    } else if b.len() == 0 {
        false
    } else if (a[0] as u32) < (b[0] as u32) {
        true
    } else if (a[0] as u32) > (b[0] as u32) {
        false
    } else {
        lex_le(a.drop_first(), b.drop_first())
    }
}

pub open spec fn lex_lt(a: Seq<char>, b: Seq<char>) -> bool {
    lex_le(a, b) && a != b
}

proof fn lemma_char_cast_injective(c: char, d: char)
    requires
        (c as u32) == (d as u32),
    ensures
        c == d,
{
}

/// `lex_le` is total.
pub proof fn lemma_lex_le_total(a: Seq<char>, b: Seq<char>)
    ensures
        lex_le(a, b) || lex_le(b, a),
    decreases a.len(),
{
    if a.len() == 0 || b.len() == 0 {
    } else if (a[0] as u32) == (b[0] as u32) {
        lemma_lex_le_total(a.drop_first(), b.drop_first());
    }
}

/// `lex_le` is antisymmetric.
pub proof fn lemma_lex_le_antisym(a: Seq<char>, b: Seq<char>)
    requires
        lex_le(a, b),
        lex_le(b, a),
    ensures
        a == b,
    decreases a.len(),
{
    if a.len() == 0 {
        assert(b.len() == 0);
        assert(a =~= b);
    } else {
        assert(b.len() > 0);
        assert((a[0] as u32) == (b[0] as u32));
        lemma_char_cast_injective(a[0], b[0]);
        lemma_lex_le_antisym(a.drop_first(), b.drop_first());
        assert(a.len() == b.len());
        assert forall|i: int| 0 <= i < a.len() implies a[i] == b[i] by {
            if i >= 1 {
                assert(a[i] == a.drop_first()[i - 1]);
                assert(b[i] == b.drop_first()[i - 1]);
            }
        }
        assert(a =~= b);
    }
}

/// `lex_le` is transitive.
pub proof fn lemma_lex_le_trans(a: Seq<char>, b: Seq<char>, c: Seq<char>)
    requires
        lex_le(a, b),
        lex_le(b, c),
    ensures
        lex_le(a, c),
    decreases a.len(),
{
    if a.len() == 0 {
    } else {
        assert(b.len() > 0);
        assert(c.len() > 0);
        if (a[0] as u32) == (b[0] as u32) && (b[0] as u32) == (c[0] as u32) {
            lemma_lex_le_trans(a.drop_first(), b.drop_first(), c.drop_first());
        }
    }
}

/// Compares two strings in the order of `lex_le`.
pub fn lex_le_str(a: &str, b: &str) -> (r: bool)
    ensures
        r == lex_le(a@, b@),
{
    let alen = a.unicode_len();
    let blen = b.unicode_len();
    let mut i: usize = 0;
    proof {
        assert(a@.skip(0) =~= a@);
        assert(b@.skip(0) =~= b@);
    }
    loop
        invariant
            i <= alen,
            i <= blen,
            alen == a@.len(),
            blen == b@.len(),
            lex_le(a@, b@) == lex_le(a@.skip(i as int), b@.skip(i as int)),
        decreases alen - i,
    {
        if i >= alen {
            proof {
                assert(a@.skip(i as int).len() == 0);
            }
            return true;
        }
        if i >= blen {
            proof {
                assert(b@.skip(i as int).len() == 0);
                assert(a@.skip(i as int).len() > 0);
            }
            return false;
        }
        let ca = a.get_char(i);
        let cb = b.get_char(i);
        proof {
            assert(a@.skip(i as int)[0] == a@[i as int]);
            assert(b@.skip(i as int)[0] == b@[i as int]);
        }
        if (ca as u32) < (cb as u32) {
            return true;
        }
        if (ca as u32) > (cb as u32) {
            return false;
        }
        proof {
            assert(a@.skip(i as int).drop_first() =~= a@.skip(i as int + 1));
            assert(b@.skip(i as int).drop_first() =~= b@.skip(i as int + 1));
        }
        i = i + 1;
    }
}

/// Whether `n` occurs as a contiguous run inside `h`.
pub open spec fn contains_seq(h: Seq<char>, n: Seq<char>) -> bool {
    exists|i: int|
        0 <= i && i + n.len() <= h.len() && #[trigger] h.subrange(i, i + n.len() as int) == n
}

fn match_at(h: &str, n: &str, i: usize) -> (r: bool)
    requires
        i + n@.len() <= h@.len(),
    ensures
        r == (h@.subrange(i as int, i as int + n@.len() as int) == n@),
{
    let hl = h.unicode_len();
    let nl = n.unicode_len();
    let mut j: usize = 0;
    while j < nl
        invariant
            j <= nl,
            nl == n@.len(),
            hl == h@.len(),
            i + nl <= h@.len(),
            forall|t: int| 0 <= t < j ==> h@[i + t] == n@[t],
        decreases nl - j,
    {
        let hc = h.get_char(i + j);
        let nc = n.get_char(j);
        if hc != nc {
            proof {
                assert(h@.subrange(i as int, i as int + n@.len() as int)[j as int] == h@[
                    i + j as int
                ]);
            }
            return false;
        }
        j = j + 1;
    }
    proof {
        assert(h@.subrange(i as int, i as int + n@.len() as int) =~= n@);
    }
    true
}

/// Whether the string `n` occurs inside `h`.
pub fn str_contains(h: &str, n: &str) -> (r: bool)
    ensures
        r == contains_seq(h@, n@),
{
    let hl = h.unicode_len();
    let nl = n.unicode_len();
    if nl > hl {
        return false;
    }
    if nl == 0 {
        proof {
            assert(h@.subrange(0, 0 + n@.len() as int) =~= n@);
            assert(contains_seq(h@, n@));
        }
        return true;
    }
    let mut i: usize = 0;
    loop
        invariant
            i <= hl - nl + 1,
            hl == h@.len(),
            nl == n@.len(),
            1 <= nl <= hl,
            forall|k: int| 0 <= k < i ==> #[trigger] h@.subrange(k, k + nl as int) != n@,
        decreases hl - nl + 1 - i,
    {
        if i > hl - nl {
            return false;
        }
        if match_at(h, n, i) {
            proof {
                let w: int = i as int;
                assert(0 <= w && w + n@.len() <= h@.len() && h@.subrange(
                    w,
                    w + n@.len() as int,
                ) == n@);
                assert(contains_seq(h@, n@));
            }
            return true;
        }
        i = i + 1;
    }
}

} // verus!

//! Ordering and equality on metric keys.
//!
//! Keys are compared character by character by code point — the order Rust
//! gives strings — and case-sensitively: `Loss` and `loss` are distinct keys
//! on purpose.

use vstd::prelude::*;

verus! {

/// Strict lexicographic order on character sequences, by code point.
pub open spec fn str_lt(a: Seq<char>, b: Seq<char>) -> bool
    decreases a.len(),
{
    if b.len() == 0 {
        false
    } else if a.len() == 0 {
        true
    } else if (a[0] as u32) < (b[0] as u32) {
        true
    } else if (a[0] as u32) > (b[0] as u32) {
        false
    } else {
        str_lt(a.drop_first(), b.drop_first())
    }
}

/// The order is irreflexive.
pub proof fn lemma_str_lt_irrefl(a: Seq<char>)
    ensures
        !str_lt(a, a),
    decreases a.len(),
{
    if a.len() > 0 {
        lemma_str_lt_irrefl(a.drop_first());
    }
}

/// The order is transitive.
pub proof fn lemma_str_lt_trans(a: Seq<char>, b: Seq<char>, c: Seq<char>)
    requires
        str_lt(a, b),
        str_lt(b, c),
    ensures
        str_lt(a, c),
    decreases a.len() + b.len() + c.len(),
{
    if a.len() > 0 && b.len() > 0 && c.len() > 0 {
        if (a[0] as u32) == (b[0] as u32) && (b[0] as u32) == (c[0] as u32) {
            lemma_str_lt_trans(a.drop_first(), b.drop_first(), c.drop_first());
        }
    }
}

/// Three-way comparison of two strings in the code-point order:
/// `-1` for below, `0` for equal, `1` for above.
pub fn str_cmp(a: &str, b: &str) -> (r: i8)
    ensures
        r == -1 || r == 0 || r == 1,
        (r == -1) <==> str_lt(a@, b@),
        (r == 0) <==> a@ == b@,
        (r == 1) <==> str_lt(b@, a@),
{
    let la = a.unicode_len();
    let lb = b.unicode_len();
    let mut i: usize = 0;
    proof {
        assert(a@.subrange(0, la as int) =~= a@);
        assert(b@.subrange(0, lb as int) =~= b@);
    }
    loop
        invariant
            la == a@.len(),
            lb == b@.len(),
            i <= la,
            i <= lb,
            str_lt(a@, b@) == str_lt(
                a@.subrange(i as int, la as int),
                b@.subrange(i as int, lb as int),
            ),
            str_lt(b@, a@) == str_lt(
                b@.subrange(i as int, lb as int),
                a@.subrange(i as int, la as int),
            ),
            (a@ == b@) <==> (a@.subrange(i as int, la as int) == b@.subrange(
                i as int,
                lb as int,
            )),
        decreases la + lb - 2 * i,
    {
        let ghost sa = a@.subrange(i as int, la as int);
        let ghost sb = b@.subrange(i as int, lb as int);
        if i == la && i == lb {
            proof {
                assert(sa =~= sb);
                lemma_str_lt_irrefl(a@);
                lemma_str_lt_irrefl(b@);
            }
            return 0;
        }
        if i == la {
            proof {
                assert(sa.len() == 0 && sb.len() > 0);
                assert(a@.len() != b@.len());
            }
            return -1;
        }
        if i == lb {
            proof {
                assert(sb.len() == 0 && sa.len() > 0);
                assert(a@.len() != b@.len());
            }
            return 1;
        }
        let ca = a.get_char(i);
        let cb = b.get_char(i);
        if (ca as u32) < (cb as u32) {
            proof {
                assert(sa[0] == ca && sb[0] == cb);
                assert(a@[i as int] != b@[i as int]);
            }
            return -1;
        }
        if (ca as u32) > (cb as u32) {
            proof {
                assert(sa[0] == ca && sb[0] == cb);
                assert(a@[i as int] != b@[i as int]);
            }
            return 1;
        }
        proof {
            assert(sa[0] == ca && sb[0] == cb && ca == cb);
            assert(sa.drop_first() =~= a@.subrange(i + 1, la as int));
            assert(sb.drop_first() =~= b@.subrange(i + 1, lb as int));
            assert((sa == sb) <==> (sa.drop_first() == sb.drop_first())) by {
                if sa.drop_first() == sb.drop_first() {
                    assert(sa.len() == sb.len());
                    assert forall|k: int| 0 <= k < sa.len() implies sa[k] == sb[k] by {
                        if k > 0 {
                            assert(sa[k] == sa.drop_first()[k - 1]);
                            assert(sb[k] == sb.drop_first()[k - 1]);
                        }
                    }
                    assert(sa =~= sb);
                }
                if sa == sb {
                    assert(sa.drop_first() =~= sb.drop_first());
                }
            }
        }
        i += 1;
    }
}

/// Whether two strings are the same sequence of characters.
pub fn str_eq(a: &str, b: &str) -> (r: bool)
    ensures
        r == (a@ == b@),
{
    str_cmp(a, b) == 0
}

} // verus!

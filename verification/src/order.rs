//! Lexicographic order on id strings, and a verified sort used by the
//! listing query.

use vstd::prelude::*;
use vstd::string::StrSliceExecFns;

verus! {

/// Strict lexicographic order on character sequences, by unicode scalar
/// value, with a proper prefix ordered before its extensions.
pub open spec fn lex_lt(a: Seq<char>, b: Seq<char>) -> bool
    decreases a.len(),
{
    if b.len() == 0 {
        false
    } else if a.len() == 0 {
        true
    } else if (a[0] as u32) < (b[0] as u32) {
        true
    } else if (a[0] as u32) > (b[0] as u32) {
        false
    } else {
        lex_lt(a.drop_first(), b.drop_first())
    }
}

pub proof fn lemma_lex_lt_irrefl(a: Seq<char>)
    ensures
        !lex_lt(a, a),
    decreases a.len(),
{
    if a.len() > 0 {
        lemma_lex_lt_irrefl(a.drop_first());
    }
}

/// Any two sequences are ordered one way, the other, or equal.
pub proof fn lemma_lex_lt_total(a: Seq<char>, b: Seq<char>)
    ensures
        lex_lt(a, b) || lex_lt(b, a) || a == b,
    decreases a.len(),
{
    if a.len() == 0 {
        if b.len() == 0 {
            assert(a =~= b);
        }
    } else if b.len() == 0 {
    } else if (a[0] as u32) == (b[0] as u32) {
        lemma_lex_lt_total(a.drop_first(), b.drop_first());
        if a.drop_first() == b.drop_first() {
            vstd::utf8::char_u32_cast(a[0], a[0] as u32);
            vstd::utf8::char_u32_cast(b[0], b[0] as u32);
            assert(a[0] == b[0]);
            assert(a.len() == 1 + a.drop_first().len());
            assert(b.len() == 1 + b.drop_first().len());
            assert(a.len() == b.len());
            assert forall|j: int| 0 <= j < a.len() implies a[j] == b[j] by {
                if j > 0 {
                    assert(a[j] == a.drop_first()[j - 1]);
                    assert(b[j] == b.drop_first()[j - 1]);
                }
            }
            assert(a =~= b);
        }
    }
}

pub proof fn lemma_lex_lt_trans(a: Seq<char>, b: Seq<char>, c: Seq<char>)
    requires
        lex_lt(a, b),
        lex_lt(b, c),
    ensures
        lex_lt(a, c),
    decreases a.len(),
{
    if a.len() > 0 && b.len() > 0 && c.len() > 0 && (a[0] as u32) == (b[0] as u32) && (b[0] as u32)
        == (c[0] as u32) {
        lemma_lex_lt_trans(a.drop_first(), b.drop_first(), c.drop_first());
    }
}

/// When the first `i` characters agree, the order is decided by the
/// remainders.
proof fn lemma_lex_lt_skip(a: Seq<char>, b: Seq<char>, i: int)
    requires
        0 <= i <= a.len(),
        i <= b.len(),
        forall|j: int| 0 <= j < i ==> a[j] == b[j],
    ensures
        lex_lt(a, b) == lex_lt(a.skip(i), b.skip(i)),
    decreases i,
{
    if i == 0 {
        assert(a.skip(0) =~= a);
        assert(b.skip(0) =~= b);
    } else {
        assert(a[0] == b[0]);
        assert(a.drop_first().skip(i - 1) =~= a.skip(i));
        assert(b.drop_first().skip(i - 1) =~= b.skip(i));
        assert(forall|j: int| 0 <= j < i - 1 ==> a.drop_first()[j] == b.drop_first()[j]);
        lemma_lex_lt_skip(a.drop_first(), b.drop_first(), i - 1);
    }
}

/// Decides `lex_lt(a@, b@)`.
#[verifier::loop_isolation(false)]
pub fn str_lt(a: &String, b: &String) -> (r: bool)
    ensures
        r == lex_lt(a@, b@),
{
    let alen = a.as_str().unicode_len();
    let blen = b.as_str().unicode_len();
    let mut i: usize = 0;
    loop
        invariant
            i <= alen,
            i <= blen,
            alen == a@.len(),
            blen == b@.len(),
            forall|j: int| 0 <= j < i ==> a@[j] == b@[j],
        decreases alen - i,
    {
        proof {
            lemma_lex_lt_skip(a@, b@, i as int);
        }
        if i == alen {
            proof {
                if i == blen {
                    assert(b@.skip(i as int).len() == 0);
                } else {
                    assert(a@.skip(i as int).len() == 0);
                    assert(b@.skip(i as int).len() > 0);
                }
            }
            return i < blen;
        }
        if i == blen {
            proof {
                assert(b@.skip(i as int).len() == 0);
            }
            return false;
        }
        let ca = a.as_str().get_char(i);
        let cb = b.as_str().get_char(i);
        proof {
            assert(a@.skip(i as int)[0] == a@[i as int]);
            assert(b@.skip(i as int)[0] == b@[i as int]);
        }
        if (ca as u32) < (cb as u32) {
            return true;
        }
        if (ca as u32) > (cb as u32) {
            return false;
        }
        proof {
            vstd::utf8::char_u32_cast(ca, ca as u32);
            vstd::utf8::char_u32_cast(cb, cb as u32);
            assert(ca == cb);
        }
        i += 1;
    }
}

/// Some element of `s` views to `k`.
pub open spec fn has_id(s: Seq<String>, k: Seq<char>) -> bool {
    exists|i: int| 0 <= i < s.len() && s[i]@ == k
}

/// Sort distinct ids into strictly ascending lexicographic order. The
/// result holds exactly the views of the input, each once.
#[verifier::loop_isolation(false)]
pub(crate) fn sort_ids(ids: Vec<String>) -> (r: Vec<String>)
    requires
        forall|i: int, j: int| 0 <= i < j < ids@.len() ==> ids@[i]@ != ids@[j]@,
    ensures
        r@.len() == ids@.len(),
        forall|i: int, j: int| 0 <= i < j < r@.len() ==> lex_lt(r@[i]@, r@[j]@),
        forall|k: int| 0 <= k < r@.len() ==> has_id(ids@, r@[k]@),
        forall|l: int| 0 <= l < ids@.len() ==> has_id(r@, ids@[l]@),
{
    let ghost ids0 = ids@;
    let mut rem = ids;
    let mut out: Vec<String> = Vec::new();
    proof {
        assert forall|k: int| 0 <= k < rem@.len() implies has_id(ids0, rem@[k]@) by {
            assert(ids0[k]@ == rem@[k]@);
        }
    }
    while rem.len() > 0
        invariant
            out@.len() + rem@.len() == ids0.len(),
            forall|i: int, j: int| 0 <= i < j < out@.len() ==> out@[i]@ != out@[j]@,
            forall|i: int, j: int|
                0 <= i < out@.len() && 0 <= j < rem@.len() ==> out@[i]@ != rem@[j]@,
            forall|i: int, j: int| 0 <= i < j < rem@.len() ==> rem@[i]@ != rem@[j]@,
            forall|i: int, j: int| 0 <= i < j < out@.len() ==> lex_lt(out@[i]@, out@[j]@),
            forall|i: int, j: int|
                0 <= i < out@.len() && 0 <= j < rem@.len() ==> lex_lt(out@[i]@, rem@[j]@),
            forall|k: int| 0 <= k < out@.len() ==> has_id(ids0, out@[k]@),
            forall|k: int| 0 <= k < rem@.len() ==> has_id(ids0, rem@[k]@),
            forall|l: int|
                0 <= l < ids0.len() ==> has_id(out@, ids0[l]@) || has_id(rem@, ids0[l]@),
        decreases rem@.len(),
    {
        let mut m: usize = 0;
        let mut t: usize = 1;
        proof {
            lemma_lex_lt_irrefl(rem@[0]@);
        }
        while t < rem.len()
            invariant
                m < rem@.len(),
                t <= rem@.len(),
                forall|u: int| 0 <= u < t ==> !lex_lt(rem@[u]@, rem@[m as int]@),
            decreases rem@.len() - t,
        {
            if str_lt(&rem[t], &rem[m]) {
                proof {
                    assert forall|u: int| 0 <= u < t + 1 implies !lex_lt(
                        rem@[u]@,
                        rem@[t as int]@,
                    ) by {
                        if u < t {
                            if lex_lt(rem@[u]@, rem@[t as int]@) {
                                lemma_lex_lt_trans(rem@[u]@, rem@[t as int]@, rem@[m as int]@);
                            }
                        } else {
                            lemma_lex_lt_irrefl(rem@[t as int]@);
                        }
                    }
                }
                m = t;
            } else {
                proof {
                    assert(!lex_lt(rem@[t as int]@, rem@[m as int]@));
                }
            }
            t += 1;
        }
        proof {
            lemma_lex_lt_irrefl(rem@[m as int]@);
        }
        let ghost old_rem = rem@;
        let ghost old_out = out@;
        let x = rem.remove(m);
        proof {
            assert forall|j: int| 0 <= j < rem@.len() implies rem@[j]@ != x@ && lex_lt(
                x@,
                rem@[j]@,
            ) by {
                let oj = if j < m { j } else { j + 1 };
                assert(rem@[j] == old_rem[oj]);
                assert(old_rem[oj]@ != x@);
                assert(!lex_lt(old_rem[oj]@, x@));
                lemma_lex_lt_total(x@, old_rem[oj]@);
            }
        }
        out.push(x);
        proof {
            // every input id is still accounted for after moving the minimum
            assert forall|l: int| 0 <= l < ids0.len() implies has_id(out@, ids0[l]@) || has_id(
                rem@,
                ids0[l]@,
            ) by {
                if has_id(old_out, ids0[l]@) {
                    let k = choose|k: int| 0 <= k < old_out.len() && old_out[k]@ == ids0[l]@;
                    assert(out@[k]@ == ids0[l]@);
                } else {
                    let k = choose|k: int| 0 <= k < old_rem.len() && old_rem[k]@ == ids0[l]@;
                    if k == m {
                        assert(out@[out@.len() - 1]@ == ids0[l]@);
                    } else {
                        let nk = if k < m {
                            k
                        } else {
                            k - 1
                        };
                        assert(rem@[nk] == old_rem[k]);
                        assert(rem@[nk]@ == ids0[l]@);
                    }
                }
            }
            assert forall|k: int| 0 <= k < out@.len() implies has_id(ids0, out@[k]@) by {
                if k < old_out.len() {
                    assert(out@[k] == old_out[k]);
                } else {
                    assert(out@[k]@ == old_rem[m as int]@);
                }
            }
            assert forall|k: int| 0 <= k < rem@.len() implies has_id(ids0, rem@[k]@) by {
                let oj = if k < m {
                    k
                } else {
                    k + 1
                };
                assert(rem@[k] == old_rem[oj]);
            }
        }
    }
    proof {
        assert forall|l: int| 0 <= l < ids0.len() implies has_id(out@, ids0[l]@) by {
            assert(!has_id(rem@, ids0[l]@));
        }
    }
    out
}

} // verus!

//! Byte-lexicographic ordering of country codes.
//!
//! Availability lists are kept strictly ascending in this order, which is
//! the order a byte-wise string sort produces; strict ascent also rules out
//! duplicates. The module proves the order is a strict total order and
//! provides a verified comparison, a verified sorted insertion and a
//! verified sort.

use vstd::prelude::*;
use vstd::string::StringSliceAdditionalSpecFns;
use vstd::utf8::encode_utf8;

verus! {

/// The UTF-8 bytes of a string value; two strings are the same exactly when
/// their bytes are.
pub open spec fn code_bytes(s: String) -> Seq<u8> {
    encode_utf8(s@)
}

/// Strict byte-lexicographic order: `a` comes before `b`.
pub open spec fn bytes_lt(a: Seq<u8>, b: Seq<u8>) -> bool
    decreases a.len(),
{
    if b.len() == 0 {
        false
    } else if a.len() == 0 {
        true
    } else if a[0] != b[0] {
        a[0] < b[0]
    } else {
        bytes_lt(a.drop_first(), b.drop_first())
    }
}

/// The order is irreflexive.
pub proof fn lemma_bytes_lt_irrefl(a: Seq<u8>)
    ensures
        !bytes_lt(a, a),
    decreases a.len(),
{
    if a.len() != 0 {
        lemma_bytes_lt_irrefl(a.drop_first());
    }
}

/// The order is asymmetric.
pub proof fn lemma_bytes_lt_asym(a: Seq<u8>, b: Seq<u8>)
    ensures
        !(bytes_lt(a, b) && bytes_lt(b, a)),
    decreases a.len(),
{
    if a.len() != 0 && b.len() != 0 && a[0] == b[0] {
        lemma_bytes_lt_asym(a.drop_first(), b.drop_first());
    }
}

/// The order is total: two sequences compare one way, the other, or are equal.
pub proof fn lemma_bytes_lt_total(a: Seq<u8>, b: Seq<u8>)
    ensures
        bytes_lt(a, b) || bytes_lt(b, a) || a == b,
    decreases a.len(),
{
    if a.len() == 0 && b.len() == 0 {
        assert(a =~= b);
    } else if a.len() != 0 && b.len() != 0 && a[0] == b[0] {
        lemma_bytes_lt_total(a.drop_first(), b.drop_first());
        if !bytes_lt(a, b) && !bytes_lt(b, a) {
            assert(a.drop_first() == b.drop_first());
            assert forall|i: int| 0 <= i < a.len() implies a[i] == b[i] by {
                if i > 0 {
                    assert(a[i] == a.drop_first()[i - 1]);
                    assert(b[i] == b.drop_first()[i - 1]);
                }
            }
            assert(a =~= b);
        }
    }
}

/// The order is transitive.
pub proof fn lemma_bytes_lt_trans(a: Seq<u8>, b: Seq<u8>, c: Seq<u8>)
    requires
        bytes_lt(a, b),
        bytes_lt(b, c),
    ensures
        bytes_lt(a, c),
    decreases a.len() + b.len() + c.len(),
{
    if a.len() != 0 && b.len() != 0 && c.len() != 0 && a[0] == b[0] && b[0] == c[0] {
        lemma_bytes_lt_trans(a.drop_first(), b.drop_first(), c.drop_first());
    }
}

/// If two sequences agree below `i` and differ at `i`, the one with the
/// smaller byte at `i` comes first.
pub proof fn lemma_bytes_lt_from_first_diff(a: Seq<u8>, b: Seq<u8>, i: int)
    requires
        0 <= i < a.len(),
        i < b.len(),
        forall|j: int| 0 <= j < i ==> a[j] == b[j],
        a[i] < b[i],
    ensures
        bytes_lt(a, b),
    decreases i,
{
    if i > 0 {
        assert forall|j: int| 0 <= j < i - 1 implies a.drop_first()[j] == b.drop_first()[j] by {
            assert(a[j + 1] == b[j + 1]);
        }
        assert(a.drop_first()[i - 1] == a[i]);
        assert(b.drop_first()[i - 1] == b[i]);
        lemma_bytes_lt_from_first_diff(a.drop_first(), b.drop_first(), i - 1);
    }
}

/// A strict prefix comes before the longer sequence.
pub proof fn lemma_bytes_lt_from_prefix(a: Seq<u8>, b: Seq<u8>)
    requires
        a.len() < b.len(),
        forall|j: int| 0 <= j < a.len() ==> a[j] == b[j],
    ensures
        bytes_lt(a, b),
    decreases a.len(),
{
    if a.len() > 0 {
        assert forall|j: int| 0 <= j < a.len() - 1 implies a.drop_first()[j] == b.drop_first()[j] by {
            assert(a[j + 1] == b[j + 1]);
        }
        lemma_bytes_lt_from_prefix(a.drop_first(), b.drop_first());
    }
}

/// Byte-wise string comparison: whether `a` is strictly below `b` in
/// byte-lexicographic order.
pub fn str_bytes_lt(a: &str, b: &str) -> (r: bool)
    ensures
        r == bytes_lt(a.spec_bytes(), b.spec_bytes()),
{
    let ab: &[u8] = a.as_bytes();
    let bb: &[u8] = b.as_bytes();
    let mut i: usize = 0;
    loop
        invariant
            ab@ == a.spec_bytes(),
            bb@ == b.spec_bytes(),
            i <= ab@.len(),
            i <= bb@.len(),
            forall|j: int| 0 <= j < i ==> ab@[j] == bb@[j],
        decreases ab@.len() - i,
    {
        if i < ab.len() && i < bb.len() {
            let x = ab[i];
            let y = bb[i];
            if x < y {
                proof {
                    lemma_bytes_lt_from_first_diff(ab@, bb@, i as int);
                }
                return true;
            }
            if y < x {
                proof {
                    lemma_bytes_lt_from_first_diff(bb@, ab@, i as int);
                    lemma_bytes_lt_asym(ab@, bb@);
                }
                return false;
            }
            i = i + 1;
        } else {
            if i < bb.len() {
                proof {
                    lemma_bytes_lt_from_prefix(ab@, bb@);
                }
                return true;
            }
            proof {
                if ab@.len() == bb@.len() {
                    assert(ab@ =~= bb@);
                    lemma_bytes_lt_irrefl(ab@);
                } else {
                    lemma_bytes_lt_from_prefix(bb@, ab@);
                    lemma_bytes_lt_asym(ab@, bb@);
                }
            }
            return false;
        }
    }
}

/// Strictly ascending in byte-lexicographic order; in particular free of
/// duplicates.
pub open spec fn strictly_sorted(s: Seq<String>) -> bool {
    forall|i: int, j: int|
        0 <= i < j < s.len() ==> bytes_lt(code_bytes(s[i]), code_bytes(s[j]))
}

/// Whether some element of `s` has exactly the bytes `y`.
pub open spec fn has_code(s: Seq<String>, y: Seq<u8>) -> bool {
    exists|i: int| 0 <= i < s.len() && code_bytes(s[i]) == y
}

/// Position of the first element of `v` not strictly below `x`.
fn lower_bound(v: &Vec<String>, x: &String) -> (i: usize)
    requires
        strictly_sorted(v@),
    ensures
        i <= v@.len(),
        forall|j: int| 0 <= j < i ==> bytes_lt(code_bytes(v@[j]), code_bytes(*x)),
        i < v@.len() ==> !bytes_lt(code_bytes(v@[i as int]), code_bytes(*x)),
{
    let mut i: usize = 0;
    loop
        invariant
            strictly_sorted(v@),
            i <= v@.len(),
            forall|j: int| 0 <= j < i ==> bytes_lt(code_bytes(v@[j]), code_bytes(*x)),
        decreases v@.len() - i,
    {
        if i < v.len() {
            let below = str_bytes_lt(v[i].as_str(), x.as_str());
            if below {
                i = i + 1;
            } else {
                return i;
            }
        } else {
            return i;
        }
    }
}

/// Insert `x` into the strictly sorted `v`, keeping it strictly sorted; an
/// element with the same bytes as `x` is not duplicated.
pub fn insert_sorted(v: &mut Vec<String>, x: String)
    requires
        strictly_sorted(old(v)@),
    ensures
        strictly_sorted(final(v)@),
        forall|y: Seq<u8>|
            #![trigger has_code(final(v)@, y)]
            #![trigger has_code(old(v)@, y)]
            has_code(final(v)@, y) <==> (has_code(old(v)@, y) || y == code_bytes(x)),
{
    let i = lower_bound(v, &x);
    if i == v.len() {
        proof {
            let ghost s = v@.push(x);
            assert forall|p: int, q: int| 0 <= p < q < s.len() implies
                bytes_lt(code_bytes(s[p]), code_bytes(s[q])) by {
                if q < s.len() - 1 {
                    assert(s[p] == v@[p] && s[q] == v@[q]);
                } else {
                    assert(s[p] == v@[p] && s[q] == x);
                }
            }
        }
        v.push(x);
        proof {
            assert forall|y: Seq<u8>|
                has_code(v@, y) <==> (has_code(old(v)@, y) || y == code_bytes(x)) by {
                if has_code(v@, y) {
                    let k = choose|k: int| 0 <= k < v@.len() && code_bytes(v@[k]) == y;
                    if k < v@.len() - 1 {
                        assert(v@[k] == old(v)@[k]);
                        assert(has_code(old(v)@, y));
                    }
                }
                if has_code(old(v)@, y) {
                    let k = choose|k: int| 0 <= k < old(v)@.len() && code_bytes(old(v)@[k]) == y;
                    assert(code_bytes(v@[k]) == y);
                    assert(has_code(v@, y));
                }
                if y == code_bytes(x) {
                    assert(code_bytes(v@[v@.len() - 1]) == y);
                    assert(has_code(v@, y));
                }
            }
        }
    } else if str_bytes_lt(x.as_str(), v[i].as_str()) {
        proof {
            let ghost s = v@.insert(i as int, x);
            assert forall|p: int, q: int| 0 <= p < q < s.len() implies
                bytes_lt(code_bytes(s[p]), code_bytes(s[q])) by {
                let pv = if p < i { v@[p] } else if p == i { x } else { v@[p - 1] };
                let qv = if q < i { v@[q] } else if q == i { x } else { v@[q - 1] };
                assert(s[p] == pv && s[q] == qv);
                if p < i && q == i {
                    lemma_bytes_lt_trans(code_bytes(v@[p]), code_bytes(x), code_bytes(v@[i as int]));
                    assert(bytes_lt(code_bytes(v@[p]), code_bytes(x)));
                } else if p == i && q > i {
                    if q - 1 > i {
                        lemma_bytes_lt_trans(
                            code_bytes(x),
                            code_bytes(v@[i as int]),
                            code_bytes(v@[q - 1]),
                        );
                    }
                }
            }
        }
        v.insert(i, x);
        proof {
            assert forall|y: Seq<u8>|
                has_code(v@, y) <==> (has_code(old(v)@, y) || y == code_bytes(x)) by {
                if has_code(v@, y) {
                    let k = choose|k: int| 0 <= k < v@.len() && code_bytes(v@[k]) == y;
                    if k < i {
                        assert(v@[k] == old(v)@[k]);
                        assert(has_code(old(v)@, y));
                    } else if k > i {
                        assert(v@[k] == old(v)@[k - 1]);
                        assert(has_code(old(v)@, y));
                    }
                }
                if has_code(old(v)@, y) {
                    let k = choose|k: int| 0 <= k < old(v)@.len() && code_bytes(old(v)@[k]) == y;
                    if k < i {
                        assert(code_bytes(v@[k]) == y);
                    } else {
                        assert(code_bytes(v@[k + 1]) == y);
                    }
                    assert(has_code(v@, y));
                }
                if y == code_bytes(x) {
                    assert(code_bytes(v@[i as int]) == y);
                    assert(has_code(v@, y));
                }
            }
        }
    } else {
        proof {
            lemma_bytes_lt_total(code_bytes(x), code_bytes(v@[i as int]));
            assert(code_bytes(v@[i as int]) == code_bytes(x));
            assert(has_code(v@, code_bytes(x)));
        }
    }
}

/// Sorted, duplicate-free copy of `codes`: strictly ascending, holding
/// exactly the byte strings that occur in `codes`.
pub fn sort_dedup(codes: &Vec<String>) -> (r: Vec<String>)
    ensures
        strictly_sorted(r@),
        forall|y: Seq<u8>|
            #![trigger has_code(r@, y)]
            #![trigger has_code(codes@, y)]
            has_code(r@, y) <==> has_code(codes@, y),
{
    let mut r: Vec<String> = Vec::new();
    let mut i: usize = 0;
    while i < codes.len()
        invariant
            i <= codes@.len(),
            strictly_sorted(r@),
            forall|y: Seq<u8>|
                #![trigger has_code(r@, y)]
                #![trigger has_code(codes@.take(i as int), y)]
                has_code(r@, y) <==> has_code(codes@.take(i as int), y),
        decreases codes@.len() - i,
    {
        let x = codes[i].clone();
        proof {
            lemma_has_code_take_step(codes@, i as int);
        }
        insert_sorted(&mut r, x);
        i = i + 1;
    }
    proof {
        assert(codes@.take(codes@.len() as int) =~= codes@);
    }
    r
}

/// One more element of `s` taken: the codes found are those found before,
/// plus the bytes of `s[k]`.
proof fn lemma_has_code_take_step(s: Seq<String>, k: int)
    requires
        0 <= k < s.len(),
    ensures
        forall|y: Seq<u8>|
            #![trigger has_code(s.take(k + 1), y)]
            has_code(s.take(k + 1), y) <==> (has_code(s.take(k), y) || y == code_bytes(s[k])),
{
    assert forall|y: Seq<u8>|
        has_code(s.take(k + 1), y) <==> (has_code(s.take(k), y) || y == code_bytes(s[k])) by {
        if has_code(s.take(k + 1), y) {
            let i = choose|i: int|
                0 <= i < s.take(k + 1).len() && #[trigger] code_bytes(s.take(k + 1)[i]) == y;
            if i < k {
                assert(s.take(k)[i] == s[i]);
                assert(code_bytes(s.take(k)[i]) == y);
                assert(has_code(s.take(k), y));
            } else {
                assert(s.take(k + 1)[k] == s[k]);
            }
        }
        if has_code(s.take(k), y) {
            let i = choose|i: int| 0 <= i < s.take(k).len() && code_bytes(s.take(k)[i]) == y;
            assert(code_bytes(s.take(k + 1)[i]) == y);
            assert(has_code(s.take(k + 1), y));
        }
        if y == code_bytes(s[k]) {
            assert(code_bytes(s.take(k + 1)[k]) == y);
            assert(has_code(s.take(k + 1), y));
        }
    }
}

} // verus!

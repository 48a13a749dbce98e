//! The order of map keys: strings compared by their UTF-8 bytes, which is the
//! order of `String`'s `Ord` (and so of a `BTreeMap<String, _>`).
use vstd::prelude::*;
use vstd::utf8::*;

use crate::text::lemma_encode_injective;

verus! {

/// Lexicographic order of byte sequences.
pub open spec fn bytes_lt(a: Seq<u8>, b: Seq<u8>) -> bool
    decreases a.len(),
{
    if a.len() == 0 {
        b.len() > 0
    } else if b.len() == 0 {
        false
    } else if a[0] != b[0] {
        a[0] < b[0]
    } else {
        bytes_lt(a.drop_first(), b.drop_first())
    }
}

/// The order of string keys: by their UTF-8 encodings.
pub open spec fn key_lt(a: Seq<char>, b: Seq<char>) -> bool {
    bytes_lt(encode_utf8(a), encode_utf8(b))
}

pub proof fn lemma_bytes_lt_irreflexive(a: Seq<u8>)
    ensures
        !bytes_lt(a, a),
    decreases a.len(),
{
    if a.len() > 0 {
        lemma_bytes_lt_irreflexive(a.drop_first());
    }
}

pub proof fn lemma_bytes_lt_asymmetric(a: Seq<u8>, b: Seq<u8>)
    ensures
        bytes_lt(a, b) ==> !bytes_lt(b, a),
    decreases a.len(),
{
    if a.len() > 0 && b.len() > 0 && a[0] == b[0] {
        lemma_bytes_lt_asymmetric(a.drop_first(), b.drop_first());
    }
}

pub proof fn lemma_bytes_lt_transitive(a: Seq<u8>, b: Seq<u8>, c: Seq<u8>)
    requires
        bytes_lt(a, b),
        bytes_lt(b, c),
    ensures
        bytes_lt(a, c),
    decreases a.len(),
{
    if a.len() > 0 && b.len() > 0 && c.len() > 0 && a[0] == b[0] && b[0] == c[0] {
        lemma_bytes_lt_transitive(a.drop_first(), b.drop_first(), c.drop_first());
    }
}

pub proof fn lemma_bytes_lt_total(a: Seq<u8>, b: Seq<u8>)
    ensures
        a == b || bytes_lt(a, b) || bytes_lt(b, a),
    decreases a.len(),
{
    if a.len() > 0 && b.len() > 0 && a[0] == b[0] {
        lemma_bytes_lt_total(a.drop_first(), b.drop_first());
        if a.drop_first() == b.drop_first() {
            assert(a == seq![a[0]] + a.drop_first());
            assert(b == seq![b[0]] + b.drop_first());
        }
    } else if a.len() == 0 && b.len() == 0 {
        assert(a == b);
    }
}

/// `key_lt` is a strict total order on strings.
pub proof fn lemma_key_order(a: Seq<char>, b: Seq<char>, c: Seq<char>)
    ensures
        !key_lt(a, a),
        key_lt(a, b) ==> !key_lt(b, a),
        key_lt(a, b) && key_lt(b, c) ==> key_lt(a, c),
        a == b || key_lt(a, b) || key_lt(b, a),
{
    lemma_bytes_lt_irreflexive(encode_utf8(a));
    lemma_bytes_lt_asymmetric(encode_utf8(a), encode_utf8(b));
    if key_lt(a, b) && key_lt(b, c) {
        lemma_bytes_lt_transitive(encode_utf8(a), encode_utf8(b), encode_utf8(c));
    }
    lemma_bytes_lt_total(encode_utf8(a), encode_utf8(b));
    lemma_encode_injective(a, b);
}

/// The encoding of joined strings is the joined encodings.
pub proof fn lemma_encode_concat(a: Seq<char>, b: Seq<char>)
    ensures
        encode_utf8(a + b) == encode_utf8(a) + encode_utf8(b),
    decreases a.len(),
{
    if a.len() > 0 {
        assert((a + b).drop_first() =~= a.drop_first() + b);
        assert((a + b)[0] == a[0]);
        lemma_encode_concat(a.drop_first(), b);
        assert(encode_utf8(a + b) =~= encode_utf8(a) + encode_utf8(b));
    } else {
        assert(a + b =~= b);
        assert(encode_utf8(a) =~= Seq::<u8>::empty());
        assert(encode_utf8(a) + encode_utf8(b) =~= encode_utf8(b));
    }
}

/// A byte sequence comes before any longer one that it starts.
pub proof fn lemma_bytes_lt_prefix(a: Seq<u8>, b: Seq<u8>)
    requires
        b.len() > 0,
    ensures
        bytes_lt(a, a + b),
    decreases a.len(),
{
    if a.len() > 0 {
        assert((a + b).drop_first() =~= a.drop_first() + b);
        assert((a + b)[0] == a[0]);
        lemma_bytes_lt_prefix(a.drop_first(), b);
    }
}

/// A string comes before any longer one that it starts.
pub proof fn lemma_key_lt_prefix(a: Seq<char>, b: Seq<char>)
    requires
        a.len() < b.len(),
        b.take(a.len() as int) == a,
    ensures
        key_lt(a, b),
{
    let rest = b.skip(a.len() as int);
    assert(b =~= a + rest);
    lemma_encode_concat(a, rest);
    assert(rest[0] == rest.take(1)[0]);
    lemma_encode_concat(seq![rest[0]], rest.drop_first());
    assert(rest =~= seq![rest[0]] + rest.drop_first());
    assert(encode_utf8(seq![rest[0]]).len() > 0) by {
        assert(seq![rest[0]].drop_first() =~= Seq::<char>::empty());
    }
    lemma_bytes_lt_prefix(encode_utf8(a), encode_utf8(rest));
}

/// Three-way comparison of byte slices: -1, 0 or 1.
pub fn compare_bytes(a: &[u8], b: &[u8]) -> (r: i8)
    ensures
        r == 0 <==> a@ == b@,
        r < 0 <==> bytes_lt(a@, b@),
        r > 0 <==> bytes_lt(b@, a@),
{
    let mut i: usize = 0;
    proof {
        assert(a@.skip(0) == a@);
        assert(b@.skip(0) == b@);
    }
    while i < a.len() && i < b.len()
        invariant
            i <= a@.len(),
            i <= b@.len(),
            a@.take(i as int) == b@.take(i as int),
            bytes_lt(a@, b@) == bytes_lt(a@.skip(i as int), b@.skip(i as int)),
            bytes_lt(b@, a@) == bytes_lt(b@.skip(i as int), a@.skip(i as int)),
        decreases a@.len() - i,
    {
        if a[i] != b[i] {
            proof {
                lemma_bytes_lt_asymmetric(a@, b@);
                if a@ == b@ {
                    assert(a@[i as int] == b@[i as int]);
                }
            }
            if a[i] < b[i] {
                return -1;
            } else {
                return 1;
            }
        }
        proof {
            assert(a@.skip(i as int).drop_first() == a@.skip(i + 1));
            assert(b@.skip(i as int).drop_first() == b@.skip(i + 1));
            assert(a@.take(i + 1) == a@.take(i as int).push(a@[i as int]));
            assert(b@.take(i + 1) == b@.take(i as int).push(b@[i as int]));
        }
        i = i + 1;
    }
    proof {
        lemma_bytes_lt_irreflexive(a@);
    }
    if a.len() == b.len() {
        proof {
            assert(a@ == a@.take(i as int));
            assert(b@ == b@.take(i as int));
        }
        0
    } else if i == a.len() {
        proof {
            if a@ == b@ {
                assert(a@.len() == b@.len());
            }
        }
        -1
    } else {
        proof {
            if a@ == b@ {
                assert(a@.len() == b@.len());
            }
        }
        1
    }
}

/// Three-way comparison of strings in key order: -1, 0 or 1.
pub fn compare_keys(a: &str, b: &str) -> (r: i8)
    ensures
        r == 0 <==> a@ == b@,
        r < 0 <==> key_lt(a@, b@),
        r > 0 <==> key_lt(b@, a@),
{
    let r = compare_bytes(a.as_bytes(), b.as_bytes());
    proof {
        lemma_encode_injective(a@, b@);
    }
    r
}


/// Whether strings are in key order (equal ones may follow each other).
pub open spec fn texts_sorted(s: Seq<String>) -> bool {
    forall|i: int, j: int| 0 <= i < j < s.len() ==> !key_lt(#[trigger] s[j]@, #[trigger] s[i]@)
}

/// The strings of `v` in key order: the same strings, each as often as in `v`.
pub fn sort_texts(v: Vec<String>) -> (r: Vec<String>)
    ensures
        texts_sorted(r@),
        r@.to_multiset() == v@.to_multiset(),
{
    broadcast use vstd::seq_lib::to_multiset_insert;
    broadcast use vstd::seq_lib::group_to_multiset_ensures;
    broadcast use vstd::multiset::group_multiset_axioms;
    broadcast use vstd::multiset::group_multiset_properties;
    let mut r: Vec<String> = Vec::new();
    let mut src = v;
    let ghost orig = src@;
    proof {
        vstd::multiset::lemma_multiset_empty_len(r@.to_multiset());
        assert(r@.to_multiset() =~= vstd::multiset::Multiset::<String>::empty());
        assert(r@.to_multiset().add(src@.to_multiset()) =~= orig.to_multiset());
    }
    while src.len() > 0
        invariant
            texts_sorted(r@),
            r@.to_multiset().add(src@.to_multiset()) == orig.to_multiset(),
        decreases src@.len(),
    {
        let ghost before_src = src@;
        let x = src.pop().unwrap();
        proof {
            assert(before_src == src@.push(x));
            vstd::seq_lib::to_multiset_build(src@, x);
        }
        let mut p: usize = 0;
        while p < r.len() && compare_keys(x.as_str(), r[p].as_str()) >= 0
            invariant
                p <= r@.len(),
                forall|k: int| 0 <= k < p ==> !key_lt(x@, #[trigger] r@[k]@),
            decreases r@.len() - p,
        {
            p = p + 1;
        }
        let ghost before = r@;
        r.insert(p, x);
        proof {
            assert(r@ == before.insert(p as int, x));
            vstd::seq_lib::to_multiset_insert(before, p as int, x);
            assert(r@.to_multiset().add(src@.to_multiset()) =~= orig.to_multiset());
            assert forall|i: int, j: int| 0 <= i < j < r@.len() implies !key_lt(#[trigger] r@[j]@, #[trigger] r@[i]@) by {
                if i < p && j < p {
                    assert(!key_lt(before[j]@, before[i]@));
                } else if i < p && j == p {
                } else if i < p && j > p {
                    assert(!key_lt(before[j - 1]@, before[i]@));
                } else if i == p {
                    let y = before[j - 1];
                    if key_lt(y@, x@) {
                        lemma_key_order(y@, x@, before[p as int]@);
                        if j - 1 == p {
                            lemma_key_order(x@, y@, y@);
                        } else {
                            assert(!key_lt(before[j - 1]@, before[p as int]@));
                        }
                    }
                } else {
                    assert(!key_lt(before[j - 1]@, before[i - 1]@));
                }
            }
        }
    }
    proof {
        assert(src@.len() == 0);
        vstd::multiset::lemma_multiset_empty_len(src@.to_multiset());
        assert(r@.to_multiset() =~= r@.to_multiset().add(src@.to_multiset()));
    }
    r
}

} // verus!

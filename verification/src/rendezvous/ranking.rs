use vstd::prelude::*;
use vstd::relations::total_ordering;
use vstd::string::StringSliceAdditionalSpecFns;
use vstd::utf8::encode_utf8;

use crate::text::lemma_encoding_injective;

verus! {

/// Byte-wise lexicographic order: `a` comes strictly before `b`.
pub open spec fn bytes_lt(a: Seq<u8>, b: Seq<u8>) -> bool
    decreases a.len(),
{
    if a.len() == 0 {
        b.len() > 0
    } else if b.len() == 0 {
        false
    } else if a[0] != b[0] {
        a[0] < b[0]
    } else {
        bytes_lt(a.drop_first(), b.drop_first())
    }
}

/// The order of texts by their UTF-8 bytes, the order of `str`.
pub open spec fn text_lt(a: Seq<char>, b: Seq<char>) -> bool {
    bytes_lt(encode_utf8(a), encode_utf8(b))
}

/// Whether the node with identifier `a` ranks above the one with identifier
/// `b`, given the hash `code` of each identifier: the higher code first, and
/// on equal codes the greater identifier first.
pub open spec fn outranks(code: spec_fn(Seq<char>) -> u64, a: Seq<char>, b: Seq<char>) -> bool {
    code(a) > code(b) || (code(a) == code(b) && text_lt(b, a))
}

/// Whether `ids` is in strictly decreasing rank.
pub open spec fn ranked(ids: Seq<Seq<char>>, code: spec_fn(Seq<char>) -> u64) -> bool {
    forall|i: int, j: int| 0 <= i < j < ids.len() ==> outranks(code, #[trigger] ids[i], #[trigger] ids[j])
}

/// Whether `r` lists the identifiers `ids` (which hold no duplicate) in
/// decreasing rank.
pub open spec fn is_ranking(r: Seq<Seq<char>>, ids: Seq<Seq<char>>, code: spec_fn(Seq<char>) -> u64) -> bool {
    &&& r.len() == ids.len()
    &&& r.to_set() == ids.to_set()
    &&& ranked(r, code)
}

proof fn lemma_bytes_lt_irreflexive(a: Seq<u8>)
    ensures
        !bytes_lt(a, a),
    decreases a.len(),
{
    if a.len() > 0 {
        lemma_bytes_lt_irreflexive(a.drop_first());
    }
}

proof fn lemma_bytes_lt_asymmetric(a: Seq<u8>, b: Seq<u8>)
    ensures
        bytes_lt(a, b) ==> !bytes_lt(b, a),
    decreases a.len(),
{
    if a.len() > 0 && b.len() > 0 && a[0] == b[0] {
        lemma_bytes_lt_asymmetric(a.drop_first(), b.drop_first());
    }
}

proof fn lemma_bytes_lt_transitive(a: Seq<u8>, b: Seq<u8>, c: Seq<u8>)
    requires
        bytes_lt(a, b),
        bytes_lt(b, c),
    ensures
        bytes_lt(a, c),
    decreases a.len(),
{
    if a.len() > 0 && b.len() > 0 && c.len() > 0 && a[0] == b[0] && b[0] == c[0] {
        lemma_bytes_lt_transitive(a.drop_first(), b.drop_first(), c.drop_first());
    }
}

proof fn lemma_bytes_lt_total(a: Seq<u8>, b: Seq<u8>)
    requires
        a != b,
    ensures
        bytes_lt(a, b) || bytes_lt(b, a),
    decreases a.len(),
{
    if a.len() > 0 && b.len() > 0 && a[0] == b[0] {
        if a.drop_first() == b.drop_first() {
            assert(a =~= seq![a[0]] + a.drop_first());
            assert(b =~= seq![b[0]] + b.drop_first());
        }
        lemma_bytes_lt_total(a.drop_first(), b.drop_first());
    }
    if a.len() == 0 && b.len() == 0 {
        assert(a =~= b);
    }
}

/// `outranks` is a strict total order on identifiers, whatever the codes.
pub proof fn lemma_outranks_strict_total(code: spec_fn(Seq<char>) -> u64, a: Seq<char>, b: Seq<char>, c: Seq<char>)
    ensures
        !outranks(code, a, a),
        outranks(code, a, b) ==> !outranks(code, b, a),
        outranks(code, a, b) && outranks(code, b, c) ==> outranks(code, a, c),
        a != b ==> outranks(code, a, b) || outranks(code, b, a),
{
    let ea = encode_utf8(a);
    let eb = encode_utf8(b);
    let ec = encode_utf8(c);
    lemma_bytes_lt_irreflexive(ea);
    lemma_bytes_lt_asymmetric(ea, eb);
    lemma_bytes_lt_asymmetric(eb, ea);
    if bytes_lt(eb, ea) && bytes_lt(ec, eb) {
        lemma_bytes_lt_transitive(ec, eb, ea);
    }
    if a != b {
        lemma_encoding_injective(a, b);
        lemma_bytes_lt_total(ea, eb);
    }
}

/// In a ranked sequence no identifier occurs twice.
pub proof fn lemma_ranked_no_duplicates(r: Seq<Seq<char>>, code: spec_fn(Seq<char>) -> u64)
    requires
        ranked(r, code),
    ensures
        r.no_duplicates(),
{
    assert forall|i: int, j: int| 0 <= i < r.len() && 0 <= j < r.len() && i != j implies r[i] != r[j] by {
        if i < j {
            lemma_outranks_strict_total(code, r[i], r[j], r[j]);
            assert(outranks(code, r[i], r[j]));
        } else {
            lemma_outranks_strict_total(code, r[j], r[i], r[i]);
            assert(outranks(code, r[j], r[i]));
        }
    }
}

/// Two ranked sequences that hold the same identifiers are equal: the ranking
/// of a set of identifiers is unique.
pub proof fn lemma_ranking_unique(a: Seq<Seq<char>>, b: Seq<Seq<char>>, code: spec_fn(Seq<char>) -> u64)
    requires
        ranked(a, code),
        ranked(b, code),
        a.to_set() == b.to_set(),
    ensures
        a == b,
    decreases a.len(),
{
    lemma_ranked_no_duplicates(a, code);
    lemma_ranked_no_duplicates(b, code);
    a.unique_seq_to_set();
    b.unique_seq_to_set();
    if a.len() == 0 {
        assert(b.len() == 0);
        assert(a =~= b);
    } else {
        assert(b.len() == a.len());
        assert(a.to_set().contains(a[0]));
        assert(b.to_set().contains(b[0]));
        if a[0] != b[0] {
            assert(b.contains(a[0]));
            let k = choose|k: int| 0 <= k < b.len() && b[k] == a[0];
            assert(a.contains(b[0]));
            let m = choose|m: int| 0 <= m < a.len() && a[m] == b[0];
            assert(k > 0);
            assert(m > 0);
            assert(outranks(code, b[0], b[k]));
            assert(outranks(code, a[0], a[m]));
            lemma_outranks_strict_total(code, a[0], b[0], b[0]);
            assert(false);
        }
        let a1 = a.drop_first();
        let b1 = b.drop_first();
        assert(ranked(a1, code)) by {
            assert forall|i: int, j: int| 0 <= i < j < a1.len() implies outranks(code, #[trigger] a1[i], #[trigger] a1[j]) by {
                assert(a1[i] == a[i + 1] && a1[j] == a[j + 1]);
            }
        }
        assert(ranked(b1, code)) by {
            assert forall|i: int, j: int| 0 <= i < j < b1.len() implies outranks(code, #[trigger] b1[i], #[trigger] b1[j]) by {
                assert(b1[i] == b[i + 1] && b1[j] == b[j + 1]);
            }
        }
        assert(a1.to_set() =~= a.to_set().remove(a[0])) by {
            assert forall|x: Seq<char>| a1.to_set().contains(x) <==> a.to_set().remove(a[0]).contains(x) by {
                if a1.contains(x) {
                    let i = choose|i: int| 0 <= i < a1.len() && a1[i] == x;
                    assert(a[i + 1] == x);
                }
                if x != a[0] && a.contains(x) {
                    let i = choose|i: int| 0 <= i < a.len() && a[i] == x;
                    assert(a1[i - 1] == x);
                }
            }
        }
        assert(b1.to_set() =~= b.to_set().remove(b[0])) by {
            assert forall|x: Seq<char>| b1.to_set().contains(x) <==> b.to_set().remove(b[0]).contains(x) by {
                if b1.contains(x) {
                    let i = choose|i: int| 0 <= i < b1.len() && b1[i] == x;
                    assert(b[i + 1] == x);
                }
                if x != b[0] && b.contains(x) {
                    let i = choose|i: int| 0 <= i < b.len() && b[i] == x;
                    assert(b1[i - 1] == x);
                }
            }
        }
        lemma_ranking_unique(a1, b1, code);
        assert(a =~= b) by {
            assert forall|i: int| 0 <= i < a.len() implies a[i] == b[i] by {
                if i > 0 {
                    assert(a[i] == a1[i - 1] && b[i] == b1[i - 1]);
                }
            }
        }
    }
}


/// The non-strict companion of `outranks`: equal, or ranked above.
pub open spec fn rank_leq(code: spec_fn(Seq<char>) -> u64) -> spec_fn(Seq<char>, Seq<char>) -> bool {
    |a: Seq<char>, b: Seq<char>| a == b || outranks(code, a, b)
}

/// The candidates among `ids` for an item whose codes are `code`: the
/// identifiers sorted by decreasing rank.
pub open spec fn candidate_ranking(ids: Seq<Seq<char>>, code: spec_fn(Seq<char>) -> u64) -> Seq<Seq<char>> {
    ids.sort_by(rank_leq(code))
}

proof fn lemma_rank_leq_total(code: spec_fn(Seq<char>) -> u64)
    ensures
        total_ordering(rank_leq(code)),
{
    let leq = rank_leq(code);
    assert forall|x: Seq<char>, y: Seq<char>| #[trigger] leq(x, y) && #[trigger] leq(y, x) implies x == y by {
        lemma_outranks_strict_total(code, x, y, y);
    }
    assert forall|x: Seq<char>, y: Seq<char>, z: Seq<char>| #[trigger] leq(x, y) && #[trigger] leq(y, z) implies leq(x, z) by {
        lemma_outranks_strict_total(code, x, y, z);
    }
    assert forall|x: Seq<char>, y: Seq<char>| #[trigger] leq(x, y) || #[trigger] leq(y, x) by {
        lemma_outranks_strict_total(code, x, y, y);
    }
}

/// For identifiers without duplicates, `candidate_ranking` lists each of them
/// once, in decreasing rank.
pub proof fn lemma_candidate_ranking(ids: Seq<Seq<char>>, code: spec_fn(Seq<char>) -> u64)
    requires
        ids.no_duplicates(),
    ensures
        is_ranking(candidate_ranking(ids, code), ids, code),
{
    broadcast use vstd::seq_lib::group_to_multiset_ensures;

    let leq = rank_leq(code);
    let s = candidate_ranking(ids, code);
    lemma_rank_leq_total(code);
    ids.lemma_sort_by_ensures(leq);
    assert(s.to_multiset() =~= ids.to_multiset());
    ids.lemma_multiset_has_no_duplicates();
    s.lemma_multiset_has_no_duplicates_conv();
    assert(s.len() == ids.len()) by {
        ids.to_multiset_ensures();
        s.to_multiset_ensures();
    }
    assert(s.to_set() =~= ids.to_set()) by {
        ids.to_multiset_ensures();
        s.to_multiset_ensures();
        assert forall|x: Seq<char>| s.contains(x) <==> ids.contains(x) by {
            assert(s.contains(x) <==> s.to_multiset().count(x) > 0);
            assert(ids.contains(x) <==> ids.to_multiset().count(x) > 0);
        }
    }
    assert forall|i: int, j: int| 0 <= i < j < s.len() implies outranks(code, #[trigger] s[i], #[trigger] s[j]) by {
        assert(leq(s[i], s[j]));
    }
}

/// A ranking of identifiers without duplicates is `candidate_ranking`.
pub proof fn lemma_ranking_is_candidate_ranking(r: Seq<Seq<char>>, ids: Seq<Seq<char>>, code: spec_fn(Seq<char>) -> u64)
    requires
        ids.no_duplicates(),
        is_ranking(r, ids, code),
    ensures
        r == candidate_ranking(ids, code),
{
    lemma_candidate_ranking(ids, code);
    lemma_ranking_unique(r, candidate_ranking(ids, code), code);
}

proof fn lemma_filter_ranked(r: Seq<Seq<char>>, pred: spec_fn(Seq<char>) -> bool, code: spec_fn(Seq<char>) -> u64)
    requires
        ranked(r, code),
    ensures
        ranked(r.filter(pred), code),
    decreases r.len(),
{
    reveal(Seq::filter);
    if r.len() > 0 {
        let init = r.drop_last();
        let last = r.last();
        assert(ranked(init, code)) by {
            assert forall|i: int, j: int| 0 <= i < j < init.len() implies outranks(code, #[trigger] init[i], #[trigger] init[j]) by {
                assert(init[i] == r[i] && init[j] == r[j]);
            }
        }
        lemma_filter_ranked(init, pred, code);
        let f0 = init.filter(pred);
        if pred(last) {
            let f = f0.push(last);
            assert forall|i: int, j: int| 0 <= i < j < f.len() implies outranks(code, #[trigger] f[i], #[trigger] f[j]) by {
                if j == f.len() - 1 {
                    assert(f0.contains(f[i]));
                    init.lemma_filter_contains_rev(pred, f[i]);
                    let k = choose|k: int| 0 <= k < init.len() && init[k] == f[i];
                    assert(r[k] == f[i]);
                    assert(outranks(code, r[k], r[r.len() - 1]));
                } else {
                    assert(f[i] == f0[i] && f[j] == f0[j]);
                }
            }
        }
    }
}

proof fn lemma_filter_to_set(r: Seq<Seq<char>>, pred: spec_fn(Seq<char>) -> bool)
    ensures
        r.filter(pred).to_set() == r.to_set().filter(pred),
{
    broadcast use vstd::seq_lib::group_filter_ensures;

    assert forall|x: Seq<char>| r.filter(pred).contains(x) <==> (r.contains(x) && pred(x)) by {
        if r.filter(pred).contains(x) {
            r.lemma_filter_contains_rev(pred, x);
            let k = choose|k: int| 0 <= k < r.filter(pred).len() && r.filter(pred)[k] == x;
            assert(pred(r.filter(pred)[k]));
        }
        if r.contains(x) && pred(x) {
            let k = choose|k: int| 0 <= k < r.len() && r[k] == x;
            assert(r.filter(pred).contains(r[k]));
        }
    }
    assert(r.filter(pred).to_set() =~= r.to_set().filter(pred));
}

/// The identifiers of `ids` other than `x`, in order.
pub open spec fn leave_out(ids: Seq<Seq<char>>, x: Seq<char>) -> Seq<Seq<char>> {
    ids.filter(other_than(x))
}

/// Whether an identifier is not `x`.
pub open spec fn other_than(x: Seq<char>) -> spec_fn(Seq<char>) -> bool {
    |id: Seq<char>| id != x
}

/// Removing a node keeps the relative order of the remaining candidates: for
/// every item, the ranking of the remaining identifiers is the former ranking
/// with the removed identifier left out.  Read the other way, adding a node
/// slots it in without reordering the others.
pub proof fn lemma_removal_keeps_relative_order(
    ids: Seq<Seq<char>>,
    rest: Seq<Seq<char>>,
    removed: Seq<char>,
    code: spec_fn(Seq<char>) -> u64,
)
    requires
        ids.no_duplicates(),
        rest.no_duplicates(),
        rest.to_set() == ids.to_set().remove(removed),
    ensures
        candidate_ranking(rest, code) == leave_out(candidate_ranking(ids, code), removed),
{
    let pred = other_than(removed);
    let r = candidate_ranking(ids, code);
    lemma_candidate_ranking(ids, code);
    lemma_candidate_ranking(rest, code);
    lemma_filter_ranked(r, pred, code);
    lemma_filter_to_set(r, pred);
    assert(r.to_set().filter(pred) =~= rest.to_set());
    lemma_ranking_unique(candidate_ranking(rest, code), r.filter(pred), code);
}

/// The ranking depends only on which identifiers there are, not on the order
/// in which they are held.
pub proof fn lemma_ranking_depends_on_set(a: Seq<Seq<char>>, b: Seq<Seq<char>>, code: spec_fn(Seq<char>) -> u64)
    requires
        a.no_duplicates(),
        b.no_duplicates(),
        a.to_set() == b.to_set(),
    ensures
        candidate_ranking(a, code) == candidate_ranking(b, code),
{
    lemma_candidate_ranking(a, code);
    lemma_candidate_ranking(b, code);
    lemma_ranking_unique(candidate_ranking(a, code), candidate_ranking(b, code), code);
}


/// Inserting, at position `p`, an identifier that ranks below everything in
/// front of `p` and above everything from `p` on keeps a sequence ranked.
pub proof fn lemma_insert_keeps_ranked(r: Seq<Seq<char>>, x: Seq<char>, p: int, code: spec_fn(Seq<char>) -> u64)
    requires
        ranked(r, code),
        0 <= p <= r.len(),
        forall|q: int| 0 <= q < p ==> outranks(code, #[trigger] r[q], x),
        forall|q: int| p <= q < r.len() ==> outranks(code, x, #[trigger] r[q]),
    ensures
        ranked(r.insert(p, x), code),
{
    let s = r.insert(p, x);
    r.insert_ensures(p, x);
    assert forall|i: int, j: int| 0 <= i < j < s.len() implies outranks(code, #[trigger] s[i], #[trigger] s[j]) by {
        if j < p {
            assert(s[i] == r[i] && s[j] == r[j]);
        } else if j == p {
            assert(s[i] == r[i]);
        } else if i < p {
            assert(s[i] == r[i] && s[j] == r[j - 1]);
            lemma_outranks_strict_total(code, r[i], x, r[j - 1]);
        } else if i == p {
            assert(s[j] == r[j - 1]);
        } else {
            assert(s[i] == r[i - 1] && s[j] == r[j - 1]);
        }
    }
}

} // verus!

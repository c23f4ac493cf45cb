//! The two orders in which the batch list is shown, and a stable sort.

use vstd::prelude::*;
use vstd::utf8::encode_utf8;
use crate::batch::Batch;
use crate::text::{Cmp3, bytes_lt, compare_str, lemma_bytes_lt_asymmetric, lemma_bytes_lt_irreflexive, lemma_bytes_lt_total, lemma_bytes_lt_transitive, lemma_encode_utf8_injective, str_lt};

verus! {

broadcast use vstd::seq_lib::group_to_multiset_ensures;

/// The order of the batch list.
#[derive(Debug, Clone, Copy, PartialEq, Eq, Structural)]
pub enum SortMode {
    /// Newest first.
    CreatedDesc,
    /// By status (as strings compare), then newest first.
    Status,
}

/// Whether `a` may stand before `b` in the list ordered by `mode`.
pub open spec fn sort_le(mode: SortMode, a: Batch, b: Batch) -> bool {
    match mode {
        SortMode::CreatedDesc => a.created_at >= b.created_at,
        SortMode::Status => str_lt(a.status@, b.status@) || (a.status@ == b.status@
            && a.created_at >= b.created_at),
    }
}

/// Whether `a` and `b` have the same place in the order of `mode`.
pub open spec fn same_sort_key(mode: SortMode, a: Batch, b: Batch) -> bool {
    match mode {
        SortMode::CreatedDesc => a.created_at == b.created_at,
        SortMode::Status => a.status@ == b.status@ && a.created_at == b.created_at,
    }
}

/// The batches whose place in the order of `mode` is that of `k`.
pub open spec fn key_class(mode: SortMode, k: Batch) -> spec_fn(Batch) -> bool {
    |b: Batch| same_sort_key(mode, b, k)
}

/// `s` is ordered by `mode`.
pub open spec fn sorted_by_mode(mode: SortMode, s: Seq<Batch>) -> bool {
    forall|i: int, j: int| 0 <= i < j < s.len() ==> sort_le(mode, #[trigger] s[i], #[trigger] s[j])
}

/// Batches that `mode` does not tell apart keep, in `out`, the order they
/// have in `inp`.
pub open spec fn keeps_ties_in_order(mode: SortMode, out: Seq<Batch>, inp: Seq<Batch>) -> bool {
    forall|k: Batch| #[trigger] out.filter(key_class(mode, k)) == inp.filter(key_class(mode, k))
}

/// `out` is `inp` sorted stably by `mode`.
pub open spec fn is_stable_sort(mode: SortMode, out: Seq<Batch>, inp: Seq<Batch>) -> bool {
    &&& sorted_by_mode(mode, out)
    &&& out.to_multiset() == inp.to_multiset()
    &&& keeps_ties_in_order(mode, out, inp)
}

/// A list newest first has non-increasing creation times; a list by status
/// has its statuses in increasing string order, and within one status the
/// creation times do not increase.
pub proof fn lemma_sorted_orders(mode: SortMode, s: Seq<Batch>, i: int, j: int)
    requires
        sorted_by_mode(mode, s),
        0 <= i < j < s.len(),
    ensures
        mode == SortMode::CreatedDesc ==> s[i].created_at >= s[j].created_at,
        mode == SortMode::Status ==> s[i].status@ == s[j].status@ || str_lt(s[i].status@, s[j].status@),
        mode == SortMode::Status && s[i].status@ == s[j].status@ ==> s[i].created_at
            >= s[j].created_at,
{
    assert(sort_le(mode, s[i], s[j]));
    crate::text::lemma_str_lt_strict(s[i].status@, s[j].status@);
}

/// The order of each mode is a total preorder, and two batches share a place
/// exactly when each may stand before the other.
pub proof fn lemma_sort_le_total_preorder(mode: SortMode)
    ensures
        forall|a: Batch, b: Batch| #[trigger] sort_le(mode, a, b) || sort_le(mode, b, a),
        forall|a: Batch, b: Batch, c: Batch|
            #[trigger] sort_le(mode, a, b) && #[trigger] sort_le(mode, b, c) ==> sort_le(mode, a, c),
        forall|a: Batch, b: Batch|
            #[trigger] same_sort_key(mode, a, b) <==> (sort_le(mode, a, b) && sort_le(mode, b, a)),
{
    assert forall|a: Batch, b: Batch| #[trigger] sort_le(mode, a, b) || sort_le(mode, b, a) by {
        lemma_bytes_lt_total(encode_utf8(a.status@), encode_utf8(b.status@));
        if encode_utf8(a.status@) == encode_utf8(b.status@) {
            lemma_encode_utf8_injective(a.status@, b.status@);
        }
    }
    assert forall|a: Batch, b: Batch, c: Batch|
        #[trigger] sort_le(mode, a, b) && #[trigger] sort_le(mode, b, c) implies sort_le(mode, a, c) by {
        if mode == SortMode::Status {
            let (x, y, z) = (encode_utf8(a.status@), encode_utf8(b.status@), encode_utf8(c.status@));
            if bytes_lt(x, y) && bytes_lt(y, z) {
                lemma_bytes_lt_transitive(x, y, z);
            }
        }
    }
    assert forall|a: Batch, b: Batch|
        #[trigger] same_sort_key(mode, a, b) <==> (sort_le(mode, a, b) && sort_le(mode, b, a)) by {
        let (x, y) = (encode_utf8(a.status@), encode_utf8(b.status@));
        lemma_bytes_lt_irreflexive(x);
        if bytes_lt(x, y) {
            lemma_bytes_lt_asymmetric(x, y);
        }
        if bytes_lt(y, x) {
            lemma_bytes_lt_asymmetric(y, x);
        }
    }
}

/// Decides `sort_le(mode, a, b)`.
pub fn sort_before(mode: SortMode, a: &Batch, b: &Batch) -> (r: bool)
    ensures
        r == sort_le(mode, *a, *b),
{
    match mode {
        SortMode::CreatedDesc => a.created_at >= b.created_at,
        SortMode::Status => match compare_str(a.status.as_str(), b.status.as_str()) {
            Cmp3::Less => true,
            Cmp3::Greater => {
                proof {
                    lemma_bytes_lt_asymmetric(encode_utf8(b.status@), encode_utf8(a.status@));
                }
                false
            },
            Cmp3::Equal => {
                proof {
                    lemma_bytes_lt_irreflexive(encode_utf8(a.status@));
                }
                a.created_at >= b.created_at
            },
        },
    }
}

/// The first position of `out` at which `x` may stand before the batch there.
fn insertion_point(mode: SortMode, out: &Vec<Batch>, x: &Batch) -> (p: usize)
    ensures
        p <= out.len(),
        forall|j: int| 0 <= j < p ==> !sort_le(mode, *x, #[trigger] out@[j]),
        p < out.len() ==> sort_le(mode, *x, out@[p as int]),
{
    let mut p: usize = 0;
    while p < out.len()
        invariant
            p <= out.len(),
            forall|j: int| 0 <= j < p ==> !sort_le(mode, *x, #[trigger] out@[j]),
        decreases out.len() - p,
    {
        if sort_before(mode, x, &out[p]) {
            return p;
        }
        p = p + 1;
    }
    p
}

/// Inserting `x` where `insertion_point` puts it keeps the list sorted, adds
/// `x` to its multiset, and puts `x` before the batches that share its place.
proof fn lemma_insert_at_point(mode: SortMode, out: Seq<Batch>, x: Batch, p: int, rest: Seq<Batch>)
    requires
        0 <= p <= out.len(),
        forall|j: int| 0 <= j < p ==> !sort_le(mode, x, #[trigger] out[j]),
        p < out.len() ==> sort_le(mode, x, out[p]),
        sorted_by_mode(mode, out),
        out.to_multiset() == rest.to_multiset(),
        keeps_ties_in_order(mode, out, rest),
    ensures
        is_stable_sort(mode, out.insert(p, x), seq![x] + rest),
{
    lemma_sort_le_total_preorder(mode);
    let new = out.insert(p, x);
    let a = out.take(p);
    let b = out.skip(p);
    assert(out =~= a + b);
    assert(new =~= a + (seq![x] + b));
    out.insert_ensures(p, x);
    // Sorted.
    assert forall|i: int, j: int| 0 <= i < j < new.len() implies sort_le(mode, #[trigger] new[i], #[trigger] new[j]) by {
        if j < p {
            assert(new[i] == out[i] && new[j] == out[j]);
        } else if j == p {
            assert(new[i] == out[i]);
            assert(!sort_le(mode, x, out[i]));
        } else if i < p {
            assert(new[i] == out[i] && new[j] == out[j - 1]);
        } else if i == p {
            assert(new[j] == out[j - 1]);
            assert(sort_le(mode, out[p], out[j - 1]) || p == j - 1);
        } else {
            assert(new[i] == out[i - 1] && new[j] == out[j - 1]);
        }
    }
    // Same multiset.
    vstd::seq_lib::lemma_multiset_commutative(a, seq![x] + b);
    vstd::seq_lib::lemma_multiset_commutative(seq![x], b);
    vstd::seq_lib::lemma_multiset_commutative(a, b);
    vstd::seq_lib::lemma_multiset_commutative(seq![x], rest);
    assert(seq![x] =~= Seq::<Batch>::empty().push(x));
    assert(new.to_multiset() =~= (seq![x] + rest).to_multiset());
    // Ties keep their order.
    assert forall|k: Batch| #[trigger] new.filter(key_class(mode, k)) == (seq![x] + rest).filter(
        key_class(mode, k),
    ) by {
        let c = key_class(mode, k);
        Seq::filter_distributes_over_add(a, seq![x] + b, c);
        Seq::filter_distributes_over_add(seq![x], b, c);
        Seq::filter_distributes_over_add(a, b, c);
        Seq::filter_distributes_over_add(seq![x], rest, c);
        b.lemma_filter_prepend(x, c);
        rest.lemma_filter_prepend(x, c);
        assert(out.filter(c) == rest.filter(c));
        if c(x) {
            assert forall|j: int| 0 <= j < a.len() implies !c(#[trigger] a[j]) by {
                assert(a[j] == out[j]);
                assert(!sort_le(mode, x, out[j]));
            }
            a.lemma_all_neg_filter_empty(c);
            assert(a.filter(c) =~= Seq::<Batch>::empty());
        }
    }
}

/// A stable sort keeps the number of batches.
pub proof fn lemma_stable_sort_keeps_len(mode: SortMode, out: Seq<Batch>, inp: Seq<Batch>)
    requires
        is_stable_sort(mode, out, inp),
    ensures
        out.len() == inp.len(),
{
    assert(out.to_multiset().len() == inp.to_multiset().len());
}

/// Sorts `batches` stably by `mode`.
pub fn sort_batches(mode: SortMode, batches: Vec<Batch>) -> (out: Vec<Batch>)
    ensures
        is_stable_sort(mode, out@, batches@),
{
    let ghost orig = batches@;
    let mut rest = batches;
    let mut out: Vec<Batch> = Vec::new();
    assert(orig.skip(orig.len() as int) =~= Seq::<Batch>::empty());
    assert(out@ =~= Seq::<Batch>::empty());
    while rest.len() > 0
        invariant
            rest.len() <= orig.len(),
            rest@ == orig.take(rest.len() as int),
            is_stable_sort(mode, out@, orig.skip(rest.len() as int)),
        decreases rest.len(),
    {
        let ghost n = rest.len() - 1;
        let x = rest.pop().unwrap();
        assert(x == orig[n]);
        assert(rest@ =~= orig.take(n));
        assert(orig.skip(n) =~= seq![x] + orig.skip(n + 1));
        let p = insertion_point(mode, &out, &x);
        proof {
            lemma_insert_at_point(mode, out@, x, p as int, orig.skip(n + 1));
        }
        out.insert(p, x);
    }
    assert(orig.skip(0) =~= orig);
    out
}

/// Two sorted lists with the same batches have the same length, and their
/// first batches share a place in the order; the first batch of `b` stands at
/// index `j` of `a`.
proof fn lemma_sorted_heads_share_place(mode: SortMode, a: Seq<Batch>, b: Seq<Batch>) -> (j: int)
    requires
        sorted_by_mode(mode, a),
        sorted_by_mode(mode, b),
        a.to_multiset() == b.to_multiset(),
        a.len() > 0,
    ensures
        a.len() == b.len(),
        same_sort_key(mode, a[0], b[0]),
        0 <= j < a.len(),
        a[j] == b[0],
{
    lemma_sort_le_total_preorder(mode);
    assert(a.len() == a.to_multiset().len());
    assert(b.len() == b.to_multiset().len());
    let x = a[0];
    let y = b[0];
    // Each first batch occurs in the other list, so each may stand before the
    // other.
    assert(a.to_multiset().count(x) > 0);
    assert(b.contains(x));
    let k = choose|k: int| 0 <= k < b.len() && b[k] == x;
    assert(b.to_multiset().count(y) > 0);
    assert(a.contains(y));
    let j = choose|j: int| 0 <= j < a.len() && a[j] == y;
    if j > 0 {
        assert(sort_le(mode, a[0], a[j]));
    }
    if k > 0 {
        assert(sort_le(mode, b[0], b[k]));
    }
    j
}

/// Dropping the same first batch from two sorted lists with the same batches
/// leaves two sorted lists with the same batches.
proof fn lemma_sorted_drop_same_head(mode: SortMode, a: Seq<Batch>, b: Seq<Batch>)
    requires
        sorted_by_mode(mode, a),
        sorted_by_mode(mode, b),
        a.to_multiset() == b.to_multiset(),
        a.len() > 0,
        b.len() > 0,
        a[0] == b[0],
    ensures
        sorted_by_mode(mode, a.drop_first()),
        sorted_by_mode(mode, b.drop_first()),
        a.drop_first().to_multiset() == b.drop_first().to_multiset(),
{
    let x = a[0];
    let a1 = a.drop_first();
    let b1 = b.drop_first();
    assert(a =~= seq![x] + a1);
    assert(b =~= seq![x] + b1);
    vstd::seq_lib::lemma_multiset_commutative(seq![x], a1);
    vstd::seq_lib::lemma_multiset_commutative(seq![x], b1);
    assert forall|v: Batch| a1.to_multiset().count(v) == b1.to_multiset().count(v) by {
        broadcast use vstd::multiset::group_multiset_axioms;

        assert(a.to_multiset().count(v) == seq![x].to_multiset().count(v) + a1.to_multiset().count(v));
        assert(b.to_multiset().count(v) == seq![x].to_multiset().count(v) + b1.to_multiset().count(v));
    }
    assert(a1.to_multiset() =~= b1.to_multiset());
    assert forall|i: int, i2: int| 0 <= i < i2 < a1.len() implies sort_le(mode, #[trigger] a1[i], #[trigger] a1[i2]) by {
        assert(a1[i] == a[i + 1] && a1[i2] == a[i2 + 1]);
    }
    assert forall|i: int, i2: int| 0 <= i < i2 < b1.len() implies sort_le(mode, #[trigger] b1[i], #[trigger] b1[i2]) by {
        assert(b1[i] == b[i + 1] && b1[i2] == b[i2 + 1]);
    }
}

/// Two lists sorted by `mode`, with the same batches and the same order
/// among batches that `mode` does not tell apart, are the same list.
pub proof fn lemma_sorted_with_same_ties_equal(mode: SortMode, a: Seq<Batch>, b: Seq<Batch>)
    requires
        sorted_by_mode(mode, a),
        sorted_by_mode(mode, b),
        a.to_multiset() == b.to_multiset(),
        keeps_ties_in_order(mode, a, b),
    ensures
        a == b,
    decreases a.len(),
{
    assert(a.len() == a.to_multiset().len());
    assert(b.len() == b.to_multiset().len());
    if a.len() == 0 {
        assert(a =~= b);
    } else {
        lemma_sorted_heads_share_place(mode, a, b);
        let x = a[0];
        let y = b[0];
        // The first batches share a place, so each is the first of its tie
        // class, and the tie classes agree: they are the same batch.
        let c = key_class(mode, x);
        let a1 = a.drop_first();
        let b1 = b.drop_first();
        assert(a =~= seq![x] + a1);
        assert(b =~= seq![y] + b1);
        a1.lemma_filter_prepend(x, c);
        b1.lemma_filter_prepend(y, c);
        assert(a.filter(c) == b.filter(c));
        assert(a.filter(c)[0] == x);
        assert(b.filter(c)[0] == y);
        assert(x == y);
        // The rest keep ties alike.
        assert forall|k2: Batch| #[trigger] a1.filter(key_class(mode, k2)) == b1.filter(
            key_class(mode, k2),
        ) by {
            let c2 = key_class(mode, k2);
            a1.lemma_filter_prepend(x, c2);
            b1.lemma_filter_prepend(y, c2);
            assert(a.filter(c2) == b.filter(c2));
            if c2(x) {
                assert(a1.filter(c2) =~= a.filter(c2).drop_first());
                assert(b1.filter(c2) =~= b.filter(c2).drop_first());
            } else {
                assert(a.filter(c2) =~= a1.filter(c2));
                assert(b.filter(c2) =~= b1.filter(c2));
            }
        }
        lemma_sorted_drop_same_head(mode, a, b);
        lemma_sorted_with_same_ties_equal(mode, a1, b1);
    }
}

/// A stable sort has one result: two stable sorts of the same list agree.
pub proof fn lemma_stable_sort_unique(mode: SortMode, out1: Seq<Batch>, out2: Seq<Batch>, inp: Seq<Batch>)
    requires
        is_stable_sort(mode, out1, inp),
        is_stable_sort(mode, out2, inp),
    ensures
        out1 == out2,
{
    assert forall|k: Batch| #[trigger] out1.filter(key_class(mode, k)) == out2.filter(key_class(mode, k)) by {
        assert(out1.filter(key_class(mode, k)) == inp.filter(key_class(mode, k)));
        assert(out2.filter(key_class(mode, k)) == inp.filter(key_class(mode, k)));
    }
    lemma_sorted_with_same_ties_equal(mode, out1, out2);
}

/// Sorting a list that is already in the order of `mode` leaves it as it is.
pub proof fn lemma_stable_sort_of_sorted_is_identity(mode: SortMode, out: Seq<Batch>, inp: Seq<Batch>)
    requires
        sorted_by_mode(mode, inp),
        is_stable_sort(mode, out, inp),
    ensures
        out == inp,
{
    lemma_sorted_with_same_ties_equal(mode, out, inp);
}

/// No two batches of `s` were created at the same second.
pub open spec fn distinct_created(s: Seq<Batch>) -> bool {
    forall|i: int, j: int| 0 <= i < j < s.len() ==> #[trigger] s[i].created_at != #[trigger] s[j].created_at
}

/// Where no two batches share a creation time, two lists sorted by the same
/// mode with the same batches are the same list.
pub proof fn lemma_sorted_distinct_equal(mode: SortMode, a: Seq<Batch>, b: Seq<Batch>)
    requires
        sorted_by_mode(mode, a),
        sorted_by_mode(mode, b),
        a.to_multiset() == b.to_multiset(),
        distinct_created(a),
    ensures
        a == b,
    decreases a.len(),
{
    assert(a.len() == a.to_multiset().len());
    assert(b.len() == b.to_multiset().len());
    if a.len() == 0 {
        assert(a =~= b);
    } else {
        // The first batch of `b` shares its creation time with that of `a`,
        // and stands in `a`: with distinct times, it is the first of `a`.
        let j = lemma_sorted_heads_share_place(mode, a, b);
        if j > 0 {
            assert(a[0].created_at != a[j].created_at);
        }
        lemma_sorted_drop_same_head(mode, a, b);
        let a1 = a.drop_first();
        assert forall|i: int, i2: int| 0 <= i < i2 < a1.len() implies #[trigger] a1[i].created_at != #[trigger] a1[i2].created_at by {
            assert(a1[i] == a[i + 1] && a1[i2] == a[i2 + 1]);
        }
        let b1 = b.drop_first();
        lemma_sorted_distinct_equal(mode, a1, b1);
        assert(a =~= seq![a[0]] + a1);
        assert(b =~= seq![b[0]] + b1);
    }
}

} // verus!

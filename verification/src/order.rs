//! The order in which listings are returned: byte-wise lexicographic order
//! of UTF-8 encoded strings, the order an embedded SQL engine's default
//! binary collation gives to text columns.

use vstd::prelude::*;
use vstd::utf8::encode_utf8;

verus! {

/// Byte-wise lexicographic "less than or equal" on byte sequences.
pub open spec fn bytes_le(a: Seq<u8>, b: Seq<u8>) -> bool
    decreases a.len(),
{
    if a.len() == 0 {
        true
    } else if b.len() == 0 {
        false
    } else if a[0] < b[0] {
        true
    } else if a[0] > b[0] {
        false
    } else {
        bytes_le(a.drop_first(), b.drop_first())
    }
}

/// String order: the byte order of the UTF-8 encodings. For UTF-8 this
/// coincides with code-point order.
pub open spec fn str_le(a: Seq<char>, b: Seq<char>) -> bool {
    bytes_le(encode_utf8(a), encode_utf8(b))
}

/// Every ordered pair of elements, earlier to later, satisfies `r`. With a
/// "less than or equal" relation this is sortedness; a relation that also
/// keeps keys distinct states uniqueness in the same breath.
pub open spec fn pairwise<A>(s: Seq<A>, r: spec_fn(A, A) -> bool) -> bool {
    forall|i: int, j: int| 0 <= i < j < s.len() ==> #[trigger] r(s[i], s[j])
}

/// `bytes_le` is total: of any two byte sequences, one is `bytes_le` the other.
pub proof fn lemma_bytes_le_total(a: Seq<u8>, b: Seq<u8>)
    ensures
        bytes_le(a, b) || bytes_le(b, a),
    decreases a.len(),
{
    if a.len() != 0 && b.len() != 0 && a[0] == b[0] {
        lemma_bytes_le_total(a.drop_first(), b.drop_first());
    }
}

/// `bytes_le` is transitive.
pub proof fn lemma_bytes_le_trans(a: Seq<u8>, b: Seq<u8>, c: Seq<u8>)
    requires
        bytes_le(a, b),
        bytes_le(b, c),
    ensures
        bytes_le(a, c),
    decreases a.len(),
{
    if a.len() != 0 && b.len() != 0 && c.len() != 0 && a[0] == b[0] && b[0] == c[0] {
        lemma_bytes_le_trans(a.drop_first(), b.drop_first(), c.drop_first());
    }
}

/// Dropping a common prefix does not change the order of two byte sequences.
pub proof fn lemma_bytes_le_skip(a: Seq<u8>, b: Seq<u8>, i: int)
    requires
        0 <= i <= a.len(),
        i <= b.len(),
        forall|j: int| 0 <= j < i ==> a[j] == b[j],
    ensures
        bytes_le(a, b) == bytes_le(a.skip(i), b.skip(i)),
    decreases i,
{
    if i == 0 {
        assert(a.skip(0) =~= a);
        assert(b.skip(0) =~= b);
    } else {
        assert(a.drop_first() =~= a.skip(1));
        assert(b.drop_first() =~= b.skip(1));
        assert(a.skip(1).skip(i - 1) =~= a.skip(i));
        assert(b.skip(1).skip(i - 1) =~= b.skip(i));
        lemma_bytes_le_skip(a.skip(1), b.skip(1), i - 1);
    }
}

/// Compares two strings in the order of `str_le`.
pub fn str_le_exec(a: &str, b: &str) -> (r: bool)
    ensures
        r == str_le(a@, b@),
{
    let ab = a.as_bytes();
    let bb = b.as_bytes();
    let mut i: usize = 0;
    while i < ab.len() && i < bb.len()
        invariant
            i <= ab@.len(),
            i <= bb@.len(),
            ab@ == encode_utf8(a@),
            bb@ == encode_utf8(b@),
            forall|j: int| 0 <= j < i ==> ab@[j] == bb@[j],
        decreases ab@.len() - i,
    {
        let x = ab[i];
        let y = bb[i];
        if x < y {
            proof {
                lemma_bytes_le_skip(ab@, bb@, i as int);
            }
            return true;
        }
        if y < x {
            proof {
                lemma_bytes_le_skip(ab@, bb@, i as int);
            }
            return false;
        }
        i += 1;
    }
    proof {
        lemma_bytes_le_skip(ab@, bb@, i as int);
    }
    ab.len() <= bb.len()
}

/// Inserting an element that relates to everything before and after its
/// position keeps the pairwise property.
pub proof fn lemma_insert_pairwise<A>(s: Seq<A>, r: spec_fn(A, A) -> bool, p: int, x: A)
    requires
        pairwise(s, r),
        0 <= p <= s.len(),
        forall|i: int| 0 <= i < p ==> r(#[trigger] s[i], x),
        forall|i: int| p <= i < s.len() ==> r(x, #[trigger] s[i]),
    ensures
        pairwise(s.insert(p, x), r),
{
    s.insert_ensures(p, x);
    let t = s.insert(p, x);
    assert forall|i: int, j: int| 0 <= i < j < t.len() implies #[trigger] r(t[i], t[j]) by {
        if i < p {
            assert(t[i] == s[i]);
        } else if i > p {
            assert(t[i] == s[i - 1]);
        }
        if j < p {
            assert(t[j] == s[j]);
        } else if j > p {
            assert(t[j] == s[j - 1]);
        }
    }
}

/// Filtering keeps a pairwise property.
pub proof fn lemma_filter_pairwise<A>(s: Seq<A>, pred: spec_fn(A) -> bool, r: spec_fn(A, A) -> bool)
    requires
        pairwise(s, r),
    ensures
        pairwise(s.filter(pred), r),
    decreases s.len(),
{
    if s.len() > 0 {
        let d = s.drop_last();
        assert(pairwise(d, r));
        lemma_filter_pairwise(d, pred, r);
        assert(d.push(s.last()) =~= s);
        Seq::lemma_filter_push(d, s.last(), pred);
        if pred(s.last()) {
            let f = d.filter(pred);
            assert forall|i: int| 0 <= i < f.len() implies r(#[trigger] f[i], s.last()) by {
                assert(f.contains(f[i]));
                Seq::lemma_filter_contains_rev(d, pred, f[i]);
                let j = choose|j: int| 0 <= j < d.len() && d[j] == f[i];
                assert(r(s[j], s[s.len() - 1]));
            }
            let t = f.push(s.last());
            assert forall|i: int, j: int| 0 <= i < j < t.len() implies #[trigger] r(t[i], t[j])
                by {
                if j < t.len() - 1 {
                    assert(r(f[i], f[j]));
                }
            }
        }
    }
}

/// A filter whose predicate holds nowhere keeps nothing.
pub proof fn lemma_filter_none<A>(s: Seq<A>, pred: spec_fn(A) -> bool)
    requires
        forall|j: int| 0 <= j < s.len() ==> !pred(#[trigger] s[j]),
    ensures
        s.filter(pred) =~= Seq::<A>::empty(),
    decreases s.len(),
{
    if s.len() == 0 {
        reveal(Seq::filter);
    } else {
        let d = s.drop_last();
        lemma_filter_none(d, pred);
        assert(d.push(s.last()) =~= s);
        Seq::lemma_filter_push(d, s.last(), pred);
    }
}

/// A filter whose predicate holds at exactly one index keeps exactly that
/// element.
pub proof fn lemma_filter_single<A>(s: Seq<A>, pred: spec_fn(A) -> bool, i: int)
    requires
        0 <= i < s.len(),
        pred(s[i]),
        forall|j: int| 0 <= j < s.len() && j != i ==> !pred(#[trigger] s[j]),
    ensures
        s.filter(pred) =~= seq![s[i]],
    decreases s.len(),
{
    let d = s.drop_last();
    assert(d.push(s.last()) =~= s);
    Seq::lemma_filter_push(d, s.last(), pred);
    if i == s.len() - 1 {
        lemma_filter_none(d, pred);
    } else {
        lemma_filter_single(d, pred, i);
    }
}

/// A filter whose predicate holds everywhere keeps the sequence unchanged.
pub proof fn lemma_filter_all_true<A>(s: Seq<A>, pred: spec_fn(A) -> bool)
    requires
        forall|i: int| 0 <= i < s.len() ==> pred(#[trigger] s[i]),
    ensures
        s.filter(pred) == s,
    decreases s.len(),
{
    if s.len() == 0 {
        assert(s.filter(pred) =~= s) by {
            reveal(Seq::filter);
        }
    } else {
        let d = s.drop_last();
        lemma_filter_all_true(d, pred);
        assert(d.push(s.last()) =~= s);
        Seq::lemma_filter_push(d, s.last(), pred);
        assert(d.filter(pred).push(s.last()) =~= s);
    }
}

} // verus!

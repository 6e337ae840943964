//! The order in which notes are listed: names compare as their UTF-8
//! encodings do, byte by byte.

use vstd::prelude::*;
use vstd::utf8::*;

verus! {

/// Where one name stands relative to another in the listing order.
#[derive(Debug, Clone, Copy, PartialEq, Eq, Structural)]
pub enum Place {
    /// Strictly earlier.
    Before,
    /// The very same name.
    Same,
    /// Strictly later.
    After,
}

/// Strict lexicographic order on byte strings: `a` and `b` agree on their
/// first `k` bytes, and there `a` either ends or holds the smaller byte.
pub open spec fn bytes_before(a: Seq<u8>, b: Seq<u8>) -> bool {
    exists|k: int| #[trigger] diverge_at(a, b, k)
}

/// `k` witnesses that `a` comes strictly before `b`.
pub open spec fn diverge_at(a: Seq<u8>, b: Seq<u8>, k: int) -> bool {
    &&& 0 <= k <= a.len()
    &&& k < b.len()
    &&& a.take(k) == b.take(k)
    &&& k < a.len() ==> a[k] < b[k]
}

/// The listing order of names: that of their UTF-8 encodings.
pub open spec fn name_before(a: Seq<char>, b: Seq<char>) -> bool {
    bytes_before(encode_utf8(a), encode_utf8(b))
}

/// A sequence of names in strictly ascending listing order.
pub open spec fn ascending(names: Seq<Seq<char>>) -> bool {
    forall|i: int, j: int|
        0 <= i < j < names.len() ==> name_before(#[trigger] names[i], #[trigger] names[j])
}

/// No byte string comes before itself.
pub proof fn lemma_bytes_before_irreflexive(a: Seq<u8>)
    ensures
        !bytes_before(a, a),
{
    if bytes_before(a, a) {
        let k = choose|k: int| #[trigger] diverge_at(a, a, k);
        assert(a[k] < a[k]);
    }
}

/// The byte order is transitive.
pub proof fn lemma_bytes_before_transitive(a: Seq<u8>, b: Seq<u8>, c: Seq<u8>)
    requires
        bytes_before(a, b),
        bytes_before(b, c),
    ensures
        bytes_before(a, c),
{
    let k1 = choose|k: int| #[trigger] diverge_at(a, b, k);
    let k2 = choose|k: int| #[trigger] diverge_at(b, c, k);
    let k = if k1 <= k2 { k1 } else { k2 };
    assert(a.take(k) == a.take(k1).take(k));
    assert(b.take(k) == b.take(k1).take(k));
    assert(b.take(k) == b.take(k2).take(k));
    assert(c.take(k) == c.take(k2).take(k));
    if k < a.len() {
        if k1 < k2 {
            assert(b[k] == b.take(k2)[k]);
            assert(c[k] == c.take(k2)[k]);
        } else if k2 < k1 {
            assert(a[k] == a.take(k1)[k]);
            assert(b[k] == b.take(k1)[k]);
        }
    }
    assert(diverge_at(a, c, k));
}

/// Two byte strings are never each before the other.
pub proof fn lemma_bytes_before_asymmetric(a: Seq<u8>, b: Seq<u8>)
    requires
        bytes_before(a, b),
    ensures
        !bytes_before(b, a),
{
    if bytes_before(b, a) {
        lemma_bytes_before_transitive(a, b, a);
        lemma_bytes_before_irreflexive(a);
    }
}

/// Of two byte strings one comes before the other, or they are equal.
pub proof fn lemma_bytes_before_total(a: Seq<u8>, b: Seq<u8>)
    ensures
        bytes_before(a, b) || a == b || bytes_before(b, a),
    decreases a.len(),
{
    if a.len() == 0 {
        if b.len() > 0 {
            assert(a.take(0) == b.take(0));
            assert(diverge_at(a, b, 0));
        } else {
            assert(a =~= b);
        }
    } else if b.len() == 0 {
        assert(a.take(0) == b.take(0));
        assert(diverge_at(b, a, 0));
    } else if a[0] < b[0] {
        assert(a.take(0) == b.take(0));
        assert(diverge_at(a, b, 0));
    } else if b[0] < a[0] {
        assert(a.take(0) == b.take(0));
        assert(diverge_at(b, a, 0));
    } else {
        let x = a.drop_first();
        let y = b.drop_first();
        lemma_bytes_before_total(x, y);
        if bytes_before(x, y) {
            let k = choose|k: int| #[trigger] diverge_at(x, y, k);
            assert(a.take(k + 1) =~= seq![a[0]] + x.take(k));
            assert(b.take(k + 1) =~= seq![b[0]] + y.take(k));
            assert(diverge_at(a, b, k + 1));
        } else if bytes_before(y, x) {
            let k = choose|k: int| #[trigger] diverge_at(y, x, k);
            assert(a.take(k + 1) =~= seq![a[0]] + x.take(k));
            assert(b.take(k + 1) =~= seq![b[0]] + y.take(k));
            assert(diverge_at(b, a, k + 1));
        } else {
            assert(a =~= seq![a[0]] + x);
            assert(b =~= seq![b[0]] + y);
        }
    }
}

/// Names with the same encoding are the same name.
pub proof fn lemma_encoding_injective(a: Seq<char>, b: Seq<char>)
    requires
        encode_utf8(a) == encode_utf8(b),
    ensures
        a == b,
{
    encode_utf8_decode_utf8(a);
    encode_utf8_decode_utf8(b);
}

/// The listing order is a strict total order on names.
pub proof fn lemma_name_order(a: Seq<char>, b: Seq<char>, c: Seq<char>)
    ensures
        !name_before(a, a),
        name_before(a, b) ==> !name_before(b, a),
        name_before(a, b) && name_before(b, c) ==> name_before(a, c),
        name_before(a, b) || a == b || name_before(b, a),
{
    lemma_bytes_before_irreflexive(encode_utf8(a));
    if name_before(a, b) {
        lemma_bytes_before_asymmetric(encode_utf8(a), encode_utf8(b));
        if name_before(b, c) {
            lemma_bytes_before_transitive(encode_utf8(a), encode_utf8(b), encode_utf8(c));
        }
    }
    lemma_bytes_before_total(encode_utf8(a), encode_utf8(b));
    if encode_utf8(a) == encode_utf8(b) {
        lemma_encoding_injective(a, b);
    }
}

/// Names in ascending order are pairwise distinct.
pub proof fn lemma_ascending_distinct(names: Seq<Seq<char>>)
    requires
        ascending(names),
    ensures
        names.no_duplicates(),
{
    assert forall|i: int, j: int|
        0 <= i < names.len() && 0 <= j < names.len() && i != j implies names[i] != names[j] by {
        lemma_name_order(names[i], names[j], names[i]);
    }
}

/// Places `a` relative to `b` in the listing order.
pub fn place_of(a: &str, b: &str) -> (place: Place)
    ensures
        place == Place::Before <==> name_before(a@, b@),
        place == Place::Same <==> a@ == b@,
        place == Place::After <==> name_before(b@, a@),
{
    let x = a.as_bytes();
    let y = b.as_bytes();
    proof {
        lemma_name_order(a@, b@, a@);
    }
    let mut i: usize = 0;
    while i < x.len() && i < y.len()
        invariant
            i <= x@.len(),
            i <= y@.len(),
            x@.take(i as int) == y@.take(i as int),
            x@ == encode_utf8(a@),
            y@ == encode_utf8(b@),
            name_before(a@, b@) ==> !name_before(b@, a@),
            !name_before(a@, a@),
        decreases x@.len() - i,
    {
        if x[i] < y[i] {
            assert(diverge_at(x@, y@, i as int));
            return Place::Before;
        }
        if y[i] < x[i] {
            assert(diverge_at(y@, x@, i as int));
            return Place::After;
        }
        assert(x@.take(i + 1) =~= x@.take(i as int).push(x@[i as int]));
        assert(y@.take(i + 1) =~= y@.take(i as int).push(y@[i as int]));
        i += 1;
    }
    if i < y.len() {
        assert(diverge_at(x@, y@, i as int));
        Place::Before
    } else if i < x.len() {
        assert(diverge_at(y@, x@, i as int));
        Place::After
    } else {
        assert(x@ =~= x@.take(i as int));
        assert(y@ =~= y@.take(i as int));
        proof {
            lemma_encoding_injective(a@, b@);
        }
        Place::Same
    }
}

} // verus!

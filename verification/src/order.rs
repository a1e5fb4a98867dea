//! The order in which text is sorted: byte by byte over its UTF-8 encoding.

use vstd::prelude::*;

verus! {

/// `a` and `b` hold the same bytes at every index below `k`.
pub open spec fn agree_until(a: Seq<u8>, b: Seq<u8>, k: int) -> bool {
    &&& 0 <= k <= a.len()
    &&& k <= b.len()
    &&& forall|i: int| 0 <= i < k ==> a[i] == b[i]
}

/// `a` comes no later than `b` in lexicographic order: at the first index
/// where they differ `a` ends or holds the smaller byte.
pub open spec fn bytes_le(a: Seq<u8>, b: Seq<u8>) -> bool {
    exists|k: int| #[trigger]
        agree_until(a, b, k) && (k == a.len() || (k < b.len() && a[k] < b[k]))
}

/// `a` comes no later than `b` when both are compared as UTF-8 bytes.
pub open spec fn text_le(a: Seq<char>, b: Seq<char>) -> bool {
    bytes_le(vstd::utf8::encode_utf8(a), vstd::utf8::encode_utf8(b))
}

/// Once the first `k` bytes agree, index `k` decides the order.
pub proof fn lemma_gap_decides(a: Seq<u8>, b: Seq<u8>, k: int)
    requires
        agree_until(a, b, k),
    ensures
        k == a.len() ==> bytes_le(a, b),
        k < a.len() && k == b.len() ==> !bytes_le(a, b),
        k < a.len() && k < b.len() && a[k] != b[k] ==> (bytes_le(a, b) <==> a[k] < b[k]),
{
    if k < a.len() && (k == b.len() || a[k] > b[k]) {
        assert forall|j: int| #[trigger] agree_until(a, b, j) implies !(j == a.len() || (j
            < b.len() && a[j] < b[j])) by {
            if j > k {
                assert(a[k] == b[k]);
            }
        }
    }
}

/// Every byte string is `bytes_le` itself.
pub proof fn lemma_bytes_le_reflexive(a: Seq<u8>)
    ensures
        bytes_le(a, a),
{
    assert(agree_until(a, a, a.len() as int));
}

/// Of two byte strings one is `bytes_le` the other.
pub proof fn lemma_bytes_le_total(a: Seq<u8>, b: Seq<u8>)
    ensures
        bytes_le(a, b) || bytes_le(b, a),
{
    lemma_total_from(a, b, 0);
}

proof fn lemma_total_from(a: Seq<u8>, b: Seq<u8>, k: int)
    requires
        agree_until(a, b, k),
    ensures
        bytes_le(a, b) || bytes_le(b, a),
    decreases a.len() - k,
{
    assert(agree_until(b, a, k));
    if k == a.len() {
    } else if k == b.len() {
    } else if a[k] != b[k] {
    } else {
        assert(agree_until(a, b, k + 1));
        lemma_total_from(a, b, k + 1);
    }
}

/// `bytes_le` is transitive.
pub proof fn lemma_bytes_le_transitive(a: Seq<u8>, b: Seq<u8>, c: Seq<u8>)
    requires
        bytes_le(a, b),
        bytes_le(b, c),
    ensures
        bytes_le(a, c),
{
    let k1 = choose|k: int| #[trigger]
        agree_until(a, b, k) && (k == a.len() || (k < b.len() && a[k] < b[k]));
    let k2 = choose|k: int| #[trigger]
        agree_until(b, c, k) && (k == b.len() || (k < c.len() && b[k] < c[k]));
    if k1 <= k2 {
        assert(agree_until(a, c, k1));
        if k1 < a.len() && k1 < k2 {
            assert(b[k1] == c[k1]);
        }
    } else {
        assert(agree_until(a, c, k2));
        assert(a[k2] == b[k2]);
    }
}

/// Two byte strings that are `bytes_le` each other are the same.
pub proof fn lemma_bytes_le_antisymmetric(a: Seq<u8>, b: Seq<u8>)
    requires
        bytes_le(a, b),
        bytes_le(b, a),
    ensures
        a == b,
{
    let k1 = choose|k: int| #[trigger]
        agree_until(a, b, k) && (k == a.len() || (k < b.len() && a[k] < b[k]));
    let k2 = choose|k: int| #[trigger]
        agree_until(b, a, k) && (k == b.len() || (k < a.len() && b[k] < a[k]));
    if k1 < k2 {
        assert(b[k1] == a[k1]);
    } else if k2 < k1 {
        assert(a[k2] == b[k2]);
    }
    assert(a =~= b);
}

/// Text sorts no later than itself.
pub proof fn lemma_text_le_reflexive(a: Seq<char>)
    ensures
        text_le(a, a),
{
    lemma_bytes_le_reflexive(vstd::utf8::encode_utf8(a));
}

/// Of two texts one sorts no later than the other.
pub proof fn lemma_text_le_total(a: Seq<char>, b: Seq<char>)
    ensures
        text_le(a, b) || text_le(b, a),
{
    lemma_bytes_le_total(vstd::utf8::encode_utf8(a), vstd::utf8::encode_utf8(b));
}

/// `text_le` is transitive.
pub proof fn lemma_text_le_transitive(a: Seq<char>, b: Seq<char>, c: Seq<char>)
    requires
        text_le(a, b),
        text_le(b, c),
    ensures
        text_le(a, c),
{
    lemma_bytes_le_transitive(
        vstd::utf8::encode_utf8(a),
        vstd::utf8::encode_utf8(b),
        vstd::utf8::encode_utf8(c),
    );
}

/// Two texts that sort no later than each other are the same text.
pub proof fn lemma_text_le_antisymmetric(a: Seq<char>, b: Seq<char>)
    requires
        text_le(a, b),
        text_le(b, a),
    ensures
        a == b,
{
    lemma_bytes_le_antisymmetric(vstd::utf8::encode_utf8(a), vstd::utf8::encode_utf8(b));
    vstd::utf8::encode_utf8_decode_utf8(a);
    vstd::utf8::encode_utf8_decode_utf8(b);
}

/// Decides whether `a` sorts no later than `b`.
pub fn str_le(a: &str, b: &str) -> (r: bool)
    ensures
        r == text_le(a@, b@),
{
    let x = a.as_bytes();
    let y = b.as_bytes();
    let mut k: usize = 0;
    while k < x.len() && k < y.len()
        invariant
            x@ == vstd::utf8::encode_utf8(a@),
            y@ == vstd::utf8::encode_utf8(b@),
            agree_until(x@, y@, k as int),
        decreases x.len() - k,
    {
        if x[k] != y[k] {
            proof {
                lemma_gap_decides(x@, y@, k as int);
            }
            return x[k] < y[k];
        }
        k = k + 1;
    }
    proof {
        lemma_gap_decides(x@, y@, k as int);
    }
    k == x.len()
}

} // verus!

use core::cmp::Ordering;
use vstd::prelude::*;
use vstd::utf8::{encode_scalar, encode_utf8, encode_utf8_decode_utf8};

verus! {

/// Lexicographic order on byte sequences: the order every `MStr`
/// comparison goes by.
pub open spec fn bytes_cmp(a: Seq<u8>, b: Seq<u8>) -> Ordering
    decreases a.len(),
{
    if a.len() == 0 && b.len() == 0 {
        Ordering::Equal
    } else if a.len() == 0 {
        Ordering::Less
    } else if b.len() == 0 {
        Ordering::Greater
    } else if a[0] != b[0] {
        if a[0] < b[0] {
            Ordering::Less
        } else {
            Ordering::Greater
        }
    } else {
        bytes_cmp(a.drop_first(), b.drop_first())
    }
}

/// Lexicographic order returns `Equal` exactly on equal sequences.
pub proof fn lemma_bytes_cmp_equal_iff(a: Seq<u8>, b: Seq<u8>)
    ensures
        (bytes_cmp(a, b) == Ordering::Equal) <==> (a == b),
    decreases a.len(),
{
    if a.len() == 0 && b.len() == 0 {
        assert(a =~= b);
    } else if a.len() == 0 || b.len() == 0 {
        assert(a.len() != b.len());
    } else if a[0] != b[0] {
    } else {
        lemma_bytes_cmp_equal_iff(a.drop_first(), b.drop_first());
        if bytes_cmp(a, b) == Ordering::Equal {
            assert forall|i: int| 0 <= i < a.len() implies a[i] == b[i] by {
                if i > 0 {
                    assert(a[i] == a.drop_first()[i - 1]);
                    assert(b[i] == b.drop_first()[i - 1]);
                }
            }
            assert(a =~= b);
        }
    }
}

/// Lexicographic order is antisymmetric: swapping the sides swaps `Less`
/// and `Greater`, and keeps `Equal`.
pub proof fn lemma_bytes_cmp_antisymmetric(a: Seq<u8>, b: Seq<u8>)
    ensures
        (bytes_cmp(a, b) == Ordering::Less) <==> (bytes_cmp(b, a) == Ordering::Greater),
        (bytes_cmp(a, b) == Ordering::Equal) <==> (bytes_cmp(b, a) == Ordering::Equal),
    decreases a.len(),
{
    lemma_bytes_cmp_equal_iff(a, b);
    lemma_bytes_cmp_equal_iff(b, a);
    if a.len() != 0 && b.len() != 0 && a[0] == b[0] {
        lemma_bytes_cmp_antisymmetric(a.drop_first(), b.drop_first());
    }
}

/// Lexicographic order is transitive.
pub proof fn lemma_bytes_cmp_transitive(a: Seq<u8>, b: Seq<u8>, c: Seq<u8>)
    requires
        bytes_cmp(a, b) == Ordering::Less,
        bytes_cmp(b, c) == Ordering::Less,
    ensures
        bytes_cmp(a, c) == Ordering::Less,
    decreases a.len(),
{
    if a.len() != 0 && b.len() != 0 && c.len() != 0 && a[0] == b[0] && b[0] == c[0] {
        lemma_bytes_cmp_transitive(a.drop_first(), b.drop_first(), c.drop_first());
    }
}

/// One step of `bytes_cmp` on the tails that start at position `i`.
proof fn lemma_bytes_cmp_step(a: Seq<u8>, b: Seq<u8>, i: int)
    requires
        0 <= i < a.len(),
        0 <= i < b.len(),
    ensures
        a[i] < b[i] ==> bytes_cmp(a.skip(i), b.skip(i)) == Ordering::Less,
        a[i] > b[i] ==> bytes_cmp(a.skip(i), b.skip(i)) == Ordering::Greater,
        a[i] == b[i] ==> bytes_cmp(a.skip(i), b.skip(i)) == bytes_cmp(
            a.skip(i + 1),
            b.skip(i + 1),
        ),
{
    assert(a.skip(i)[0] == a[i]);
    assert(b.skip(i)[0] == b[i]);
    assert(a.skip(i).drop_first() =~= a.skip(i + 1));
    assert(b.skip(i).drop_first() =~= b.skip(i + 1));
}

/// Compares two byte slices in lexicographic order.
pub fn compare_bytes(a: &[u8], b: &[u8]) -> (r: Ordering)
    ensures
        r == bytes_cmp(a@, b@),
{
    let alen = a.len();
    let blen = b.len();
    let mut i: usize = 0;
    proof {
        assert(a@.skip(0) =~= a@);
        assert(b@.skip(0) =~= b@);
    }
    while i < alen && i < blen
        invariant
            i <= alen,
            i <= blen,
            alen == a@.len(),
            blen == b@.len(),
            bytes_cmp(a@, b@) == bytes_cmp(a@.skip(i as int), b@.skip(i as int)),
        decreases alen - i,
    {
        let x = a[i];
        let y = b[i];
        proof {
            lemma_bytes_cmp_step(a@, b@, i as int);
        }
        if x < y {
            return Ordering::Less;
        } else if y < x {
            return Ordering::Greater;
        }
        i = i + 1;
    }
    if alen < blen {
        Ordering::Less
    } else if blen < alen {
        Ordering::Greater
    } else {
        proof {
            assert(a@.skip(i as int).len() == 0);
            assert(b@.skip(i as int).len() == 0);
        }
        Ordering::Equal
    }
}

/// UTF-8 encoding is injective: equal encodings come from equal texts.
pub proof fn lemma_encode_utf8_injective(a: Seq<char>, b: Seq<char>)
    ensures
        encode_utf8(a) == encode_utf8(b) ==> a == b,
{
    if encode_utf8(a) == encode_utf8(b) {
        encode_utf8_decode_utf8(a);
        encode_utf8_decode_utf8(b);
    }
}

/// A text and its UTF-8 encoding are empty together.
pub proof fn lemma_encode_utf8_len_zero(v: Seq<char>)
    ensures
        (encode_utf8(v).len() == 0) <==> (v.len() == 0),
{
    if v.len() != 0 {
        assert(encode_scalar(v[0] as u32).len() >= 1);
    }
}

/// Tests two string slices for equal content.
pub fn str_eq(a: &str, b: &str) -> (r: bool)
    ensures
        r == (a@ == b@),
{
    let ab = a.as_bytes();
    let bb = b.as_bytes();
    let o = compare_bytes(ab, bb);
    proof {
        lemma_bytes_cmp_equal_iff(ab@, bb@);
        if ab@ == bb@ {
            lemma_encode_utf8_injective(a@, b@);
        }
    }
    match o {
        Ordering::Equal => true,
        _ => false,
    }
}

/// Compares two string slices by their UTF-8 bytes.
pub fn str_compare(a: &str, b: &str) -> (r: Ordering)
    ensures
        r == bytes_cmp(encode_utf8(a@), encode_utf8(b@)),
{
    compare_bytes(a.as_bytes(), b.as_bytes())
}

} // verus!

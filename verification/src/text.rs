//! Text as the rest of the crate compares and orders it: by the bytes of its UTF-8 encoding.
use vstd::prelude::*;
use vstd::utf8::{decode_utf8, encode_utf8, encode_utf8_decode_utf8};

verus! {

/// Where one value stands relative to another in an order.
#[derive(Clone, Copy, Debug, PartialEq, Eq, Structural)]
pub enum Placement {
    Before,
    Same,
    After,
}

/// The first `n` bytes of `a` and of `b` exist and are the same.
pub open spec fn agree(a: Seq<u8>, b: Seq<u8>, n: int) -> bool {
    &&& 0 <= n <= a.len()
    &&& n <= b.len()
    &&& forall|i: int| 0 <= i < n ==> a[i] == b[i]
}

/// `a` comes strictly before `b` in the lexicographic order of byte strings.
pub open spec fn bytes_precede(a: Seq<u8>, b: Seq<u8>) -> bool {
    exists|n: int| #[trigger]
        agree(a, b, n) && n < b.len() && (n == a.len() || a[n] < b[n])
}

/// `a` comes strictly before `b` in the order of strings: the order of their UTF-8 bytes.
pub open spec fn text_precedes(a: Seq<char>, b: Seq<char>) -> bool {
    bytes_precede(encode_utf8(a), encode_utf8(b))
}

/// Two texts with the same UTF-8 bytes are the same text.
pub proof fn lemma_encoding_is_injective(a: Seq<char>, b: Seq<char>)
    ensures
        encode_utf8(a) == encode_utf8(b) ==> a == b,
{
    encode_utf8_decode_utf8(a);
    encode_utf8_decode_utf8(b);
    assert(decode_utf8(encode_utf8(a)) == a);
    assert(decode_utf8(encode_utf8(b)) == b);
}

/// Of two texts at most one comes before the other, and none comes before itself.
pub proof fn lemma_text_order_is_asymmetric(a: Seq<char>, b: Seq<char>)
    ensures
        !(text_precedes(a, b) && text_precedes(b, a)),
        !text_precedes(a, a),
{
    let x = encode_utf8(a);
    let y = encode_utf8(b);
    if bytes_precede(x, y) && bytes_precede(y, x) {
        let n = choose|n: int| #[trigger]
            agree(x, y, n) && n < y.len() && (n == x.len() || x[n] < y[n]);
        let m = choose|m: int| #[trigger]
            agree(y, x, m) && m < x.len() && (m == y.len() || y[m] < x[m]);
        if n < m {
            assert(y[n] == x[n]);
        } else if m < n {
            assert(x[m] == y[m]);
        }
        assert(false);
    }
}

/// The order of texts is transitive.
pub proof fn lemma_text_order_is_transitive(a: Seq<char>, b: Seq<char>, c: Seq<char>)
    requires
        text_precedes(a, b),
        text_precedes(b, c),
    ensures
        text_precedes(a, c),
{
    let x = encode_utf8(a);
    let y = encode_utf8(b);
    let z = encode_utf8(c);
    let n = choose|n: int| #[trigger]
        agree(x, y, n) && n < y.len() && (n == x.len() || x[n] < y[n]);
    let m = choose|m: int| #[trigger]
        agree(y, z, m) && m < z.len() && (m == y.len() || y[m] < z[m]);
    let k = if n < m { n } else { m };
    assert(agree(x, z, k));
    assert(k < z.len() && (k == x.len() || x[k] < z[k]));
}

/// Says where `a` stands relative to `b` in the order of strings.
pub fn place_text(a: &str, b: &str) -> (placement: Placement)
    ensures
        match placement {
            Placement::Before => text_precedes(a@, b@),
            Placement::Same => a@ == b@,
            Placement::After => text_precedes(b@, a@),
        },
{
    let x = a.as_bytes();
    let y = b.as_bytes();
    let mut i: usize = 0;
    while i < x.len() && i < y.len()
        invariant
            x@ == encode_utf8(a@),
            y@ == encode_utf8(b@),
            i <= x@.len(),
            i <= y@.len(),
            agree(x@, y@, i as int),
        decreases x@.len() - i,
    {
        if x[i] < y[i] {
            return Placement::Before;
        }
        if y[i] < x[i] {
            assert(agree(y@, x@, i as int));
            return Placement::After;
        }
        i += 1;
    }
    if i < y.len() {
        Placement::Before
    } else if i < x.len() {
        assert(agree(y@, x@, i as int));
        Placement::After
    } else {
        proof {
            assert(x@ =~= y@);
            lemma_encoding_is_injective(a@, b@);
        }
        Placement::Same
    }
}

/// Whether two strings hold the same text.
pub fn same_text(a: &str, b: &str) -> (same: bool)
    ensures
        same == (a@ == b@),
{
    proof {
        lemma_text_order_is_asymmetric(a@, b@);
        lemma_text_order_is_asymmetric(b@, a@);
    }
    match place_text(a, b) {
        Placement::Same => true,
        _ => false,
    }
}

} // verus!

//! Suffix arrays of byte strings: what one is, that a text has only one, and
//! how its entries are laid out as bytes.

use vstd::prelude::*;
use crate::primitives::{native_bytes, sorted_suffixes};

verus! {

/// The suffix of `text` that starts at position `i`.
pub open spec fn suffix(text: Seq<u8>, i: int) -> Seq<u8> {
    text.subrange(i, text.len() as int)
}

/// `a` and `b` agree on their first `k` bytes, and there `a` ends while `b`
/// goes on, or `a` has the smaller byte.
pub open spec fn less_at(a: Seq<u8>, b: Seq<u8>, k: int) -> bool {
    &&& 0 <= k <= a.len()
    &&& k <= b.len()
    &&& forall|i: int| 0 <= i < k ==> a[i] == b[i]
    &&& if k == a.len() {
        k < b.len()
    } else {
        k < b.len() && a[k] < b[k]
    }
}

/// Strict lexicographic order on byte strings.
pub open spec fn lex_less(a: Seq<u8>, b: Seq<u8>) -> bool {
    exists|k: int| less_at(a, b, k)
}

/// Position `p` is an entry of `order`.
pub open spec fn occurs(order: Seq<u32>, p: int) -> bool {
    exists|i: int| 0 <= i < order.len() && #[trigger] order[i] == p
}

/// `order` lists the positions `0..=text.len()`, each once, so that the
/// suffixes they start are strictly increasing. The empty suffix, at position
/// `text.len()`, is the least and therefore comes first.
pub open spec fn orders_all_suffixes(text: Seq<u8>, order: Seq<u32>) -> bool {
    &&& order.len() == text.len() + 1
    &&& order[0] == text.len()
    &&& forall|i: int| 0 <= i < order.len() ==> #[trigger] order[i] <= text.len()
    &&& forall|i: int, j: int|
        0 <= i < j < order.len() ==> lex_less(
            suffix(text, #[trigger] order[i] as int),
            suffix(text, #[trigger] order[j] as int),
        )
    &&& forall|p: int| 0 <= p <= text.len() ==> #[trigger] occurs(order, p)
}

/// `sa` is the suffix array of `text`: the positions `0..text.len()`, each
/// once, in the strictly increasing order of the non-empty suffixes they
/// start.
pub open spec fn is_suffix_array(text: Seq<u8>, sa: Seq<u32>) -> bool {
    &&& sa.len() == text.len()
    &&& forall|i: int| 0 <= i < sa.len() ==> #[trigger] sa[i] < text.len()
    &&& forall|i: int, j: int|
        0 <= i < j < sa.len() ==> lex_less(
            suffix(text, #[trigger] sa[i] as int),
            suffix(text, #[trigger] sa[j] as int),
        )
    &&& forall|p: int| 0 <= p < text.len() ==> #[trigger] occurs(sa, p)
}

/// The longest text that a suffix array can be built of.
pub const MAX_TEXT_LEN: usize = 0x7FFF_FFFE;

/// The suffix array of a text.
pub open spec fn suffix_array_of(text: Seq<u8>) -> Seq<u32> {
    choose|sa: Seq<u32>| is_suffix_array(text, sa)
}

/// The four bytes of an entry, least significant first if `little`, most
/// significant first if not.
pub open spec fn entry_bytes(v: u32, little: bool) -> Seq<u8> {
    let b0 = (v & 0xFF) as u8;
    let b1 = ((v >> 8) & 0xFF) as u8;
    let b2 = ((v >> 16) & 0xFF) as u8;
    let b3 = ((v >> 24) & 0xFF) as u8;
    if little {
        seq![b0, b1, b2, b3]
    } else {
        seq![b3, b2, b1, b0]
    }
}

/// The entries of `sa` in turn, four bytes each, in the given byte order.
pub open spec fn serialized(sa: Seq<u32>, little: bool) -> Seq<u8>
    decreases sa.len(),
{
    if sa.len() == 0 {
        Seq::empty()
    } else {
        serialized(sa.drop_last(), little) + entry_bytes(sa.last(), little)
    }
}

/// No byte string is less than itself.
pub proof fn lemma_lex_irreflexive(a: Seq<u8>)
    ensures
        !lex_less(a, a),
{
    assert forall|k: int| !less_at(a, a, k) by {}
}

/// Of two byte strings, at most one is less than the other.
pub proof fn lemma_lex_asymmetric(a: Seq<u8>, b: Seq<u8>)
    ensures
        !(lex_less(a, b) && lex_less(b, a)),
{
    if lex_less(a, b) && lex_less(b, a) {
        let k1 = choose|k: int| less_at(a, b, k);
        let k2 = choose|k: int| less_at(b, a, k);
        if k1 < k2 {
            assert(b[k1] == a[k1]);
        } else if k2 < k1 {
            assert(a[k2] == b[k2]);
        }
    }
}

/// Two suffix arrays of one text agree on their first `n` entries.
proof fn lemma_suffix_arrays_agree(text: Seq<u8>, x: Seq<u32>, y: Seq<u32>, n: int)
    requires
        is_suffix_array(text, x),
        is_suffix_array(text, y),
        0 <= n <= text.len(),
    ensures
        forall|i: int| 0 <= i < n ==> x[i] == y[i],
    decreases n,
{
    if n > 0 {
        lemma_suffix_arrays_agree(text, x, y, n - 1);
        let i = n - 1;
        let p = x[i];
        let q = y[i];
        if p != q {
            assert(occurs(y, p as int));
            let j = choose|j: int| 0 <= j < y.len() && y[j] == p;
            assert(occurs(x, q as int));
            let k = choose|k: int| 0 <= k < x.len() && x[k] == q;
            lemma_lex_irreflexive(suffix(text, p as int));
            lemma_lex_irreflexive(suffix(text, q as int));
            lemma_lex_asymmetric(suffix(text, p as int), suffix(text, q as int));
            if j < i {
                assert(x[j] == p);
                assert(lex_less(suffix(text, x[j] as int), suffix(text, x[i] as int)));
            } else if k < i {
                assert(y[k] == q);
                assert(lex_less(suffix(text, y[k] as int), suffix(text, y[i] as int)));
            } else {
                assert(lex_less(suffix(text, y[i] as int), suffix(text, y[j] as int)));
                assert(lex_less(suffix(text, x[i] as int), suffix(text, x[k] as int)));
            }
        }
    }
}

/// A text has only one suffix array.
pub proof fn lemma_suffix_array_unique(text: Seq<u8>, x: Seq<u32>, y: Seq<u32>)
    requires
        is_suffix_array(text, x),
        is_suffix_array(text, y),
    ensures
        x == y,
{
    lemma_suffix_arrays_agree(text, x, y, text.len() as int);
    assert(x =~= y);
}

/// What is left of an order of all suffixes when its first entry, the empty
/// suffix, is taken away is the suffix array.
pub proof fn lemma_strip_empty_suffix(text: Seq<u8>, order: Seq<u32>)
    requires
        orders_all_suffixes(text, order),
    ensures
        is_suffix_array(text, order.subrange(1, order.len() as int)),
{
    let sa = order.subrange(1, order.len() as int);
    lemma_lex_irreflexive(suffix(text, text.len() as int));
    assert forall|i: int| 0 <= i < sa.len() implies #[trigger] sa[i] < text.len() by {
        assert(sa[i] == order[i + 1]);
        assert(order[i + 1] <= text.len());
        assert(lex_less(suffix(text, order[0] as int), suffix(text, order[i + 1] as int)));
    }
    assert forall|i: int, j: int| 0 <= i < j < sa.len() implies lex_less(
        suffix(text, #[trigger] sa[i] as int),
        suffix(text, #[trigger] sa[j] as int),
    ) by {
        assert(sa[i] == order[i + 1]);
        assert(sa[j] == order[j + 1]);
    }
    assert forall|p: int| 0 <= p < text.len() implies #[trigger] occurs(sa, p) by {
        assert(occurs(order, p));
        let i = choose|i: int| 0 <= i < order.len() && order[i] == p;
        assert(sa[i - 1] == order[i]);
    }
}

/// The two byte orders of an entry mirror each other.
pub proof fn lemma_entry_orders_mirror(v: u32)
    ensures
        entry_bytes(v, false) == entry_bytes(v, true).reverse(),
{
    assert(entry_bytes(v, false) =~= entry_bytes(v, true).reverse());
}

/// The bytes of an entry are its base-256 digits: least significant first,
/// they add up to the entry.
pub proof fn lemma_entry_bytes_value(v: u32)
    ensures
        entry_bytes(v, true).len() == 4,
        v == entry_bytes(v, true)[0] + 0x100 * entry_bytes(v, true)[1] + 0x1_0000 * entry_bytes(
            v,
            true,
        )[2] + 0x100_0000 * entry_bytes(v, true)[3],
{
    let b0 = (v & 0xFF) as u8;
    let b1 = ((v >> 8) & 0xFF) as u8;
    let b2 = ((v >> 16) & 0xFF) as u8;
    let b3 = ((v >> 24) & 0xFF) as u8;
    assert(v == b0 + 0x100 * b1 + 0x1_0000 * b2 + 0x100_0000 * b3) by (bit_vector)
        requires
            b0 == (v & 0xFF) as u8,
            b1 == ((v >> 8) & 0xFF) as u8,
            b2 == ((v >> 16) & 0xFF) as u8,
            b3 == ((v >> 24) & 0xFF) as u8,
    ;
}

/// The serialization of `n` entries is `4 * n` bytes long.
pub proof fn lemma_serialized_len(sa: Seq<u32>, little: bool)
    ensures
        serialized(sa, little).len() == 4 * sa.len(),
    decreases sa.len(),
{
    if sa.len() > 0 {
        lemma_serialized_len(sa.drop_last(), little);
    }
}

/// Builds the suffix array of a text.
pub fn build_suffix_array(text: &[u8]) -> (sa: Vec<u32>)
    requires
        text@.len() <= MAX_TEXT_LEN,
    ensures
        is_suffix_array(text@, sa@),
        sa@ == suffix_array_of(text@),
{
    let order = sorted_suffixes(text);
    let n: usize = order.len();
    let mut sa: Vec<u32> = Vec::new();
    let mut i: usize = 1;
    while i < n
        invariant
            1 <= i <= n,
            n == order@.len(),
            sa@ == order@.subrange(1, i as int),
        decreases n - i,
    {
        sa.push(order[i]);
        assert(sa@ =~= order@.subrange(1, i + 1));
        i = i + 1;
    }
    proof {
        lemma_strip_empty_suffix(text@, order@);
        lemma_suffix_array_unique(text@, sa@, suffix_array_of(text@));
    }
    sa
}

/// Splits an entry into its four bytes, in the given byte order.
pub fn entry_to_bytes(v: u32, little: bool) -> (bytes: [u8; 4])
    ensures
        bytes@ == entry_bytes(v, little),
{
    let w0: u32 = v & 0xFF;
    let w1: u32 = (v >> 8) & 0xFF;
    let w2: u32 = (v >> 16) & 0xFF;
    let w3: u32 = (v >> 24) & 0xFF;
    assert(w0 < 256 && w1 < 256 && w2 < 256 && w3 < 256) by (bit_vector)
        requires
            w0 == v & 0xFF,
            w1 == (v >> 8) & 0xFF,
            w2 == (v >> 16) & 0xFF,
            w3 == (v >> 24) & 0xFF,
    ;
    let bytes: [u8; 4] = if little {
        [w0 as u8, w1 as u8, w2 as u8, w3 as u8]
    } else {
        [w3 as u8, w2 as u8, w1 as u8, w0 as u8]
    };
    assert(bytes@ =~= entry_bytes(v, little));
    bytes
}

/// Lays the entries of a suffix array out as bytes, four per entry, in the
/// given byte order.
pub fn serialize(sa: &Vec<u32>, little: bool) -> (out: Vec<u8>)
    ensures
        out@ == serialized(sa@, little),
        out@.len() == 4 * sa@.len(),
{
    let mut out: Vec<u8> = Vec::new();
    let mut i: usize = 0;
    while i < sa.len()
        invariant
            i <= sa@.len(),
            out@ == serialized(sa@.take(i as int), little),
        decreases sa@.len() - i,
    {
        let bytes = entry_to_bytes(sa[i], little);
        let ghost before = out@;
        out.push(bytes[0]);
        out.push(bytes[1]);
        out.push(bytes[2]);
        out.push(bytes[3]);
        proof {
            let next = sa@.take(i + 1);
            assert(next.drop_last() =~= sa@.take(i as int));
            assert(next.last() == sa@[i as int]);
            assert(out@ =~= before + entry_bytes(sa@[i as int], little));
        }
        i = i + 1;
    }
    proof {
        assert(sa@.take(sa@.len() as int) =~= sa@);
        lemma_serialized_len(sa@, little);
    }
    out
}

/// Whether this machine stores the least significant byte of an integer
/// first.
pub(crate) fn host_is_little_endian() -> (little: bool) {
    let bytes = native_bytes(1);
    shows_little_endian(&bytes)
}

/// Tells from the four bytes that stand for the entry 1 in which order they
/// are: the least significant byte comes first exactly if the first byte is
/// the 1.
pub fn shows_little_endian(bytes: &[u8; 4]) -> (little: bool)
    ensures
        little == (bytes@[0] == 1),
        bytes@ == entry_bytes(1, true) ==> little,
        bytes@ == entry_bytes(1, false) ==> !little,
{
    assert((1u32 & 0xFF) as u8 == 1 && ((1u32 >> 24) & 0xFF) as u8 == 0) by (bit_vector);
    bytes[0] == 1
}

} // verus!

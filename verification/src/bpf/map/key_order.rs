//! The order in which a map keeps its byte-string keys: the lexicographic
//! order of byte strings, in which a proper prefix comes first.
use vstd::prelude::*;

verus! {

/// `a` comes before `b`, decided at position `i`: the first `i` bytes agree and
/// either `a` ends there while `b` goes on, or both go on and `a[i] < b[i]`.
pub open spec fn lex_lt_at(a: Seq<u8>, b: Seq<u8>, i: int) -> bool {
    &&& 0 <= i <= a.len()
    &&& i <= b.len()
    &&& forall|j: int| 0 <= j < i ==> a[j] == b[j]
    &&& ((i == a.len() && i < b.len()) || (i < a.len() && i < b.len() && a[i] < b[i]))
}

/// Strict lexicographic order on byte strings.
pub open spec fn lex_lt(a: Seq<u8>, b: Seq<u8>) -> bool {
    exists|i: int| #[trigger] lex_lt_at(a, b, i)
}

/// No byte string comes before itself, and of two strings at most one comes first.
pub proof fn lemma_lex_lt_asymmetric(a: Seq<u8>, b: Seq<u8>)
    ensures
        !(lex_lt(a, b) && lex_lt(b, a)),
        !lex_lt(a, a),
{
    if lex_lt(a, b) && lex_lt(b, a) {
        let i = choose|i: int| lex_lt_at(a, b, i);
        let k = choose|k: int| lex_lt_at(b, a, k);
        if i < k {
            assert(a[i] == b[i]);
        } else if k < i {
            assert(a[k] == b[k]);
        }
    }
    if lex_lt(a, a) {
        let i = choose|i: int| lex_lt_at(a, a, i);
    }
}

/// The order is transitive.
pub proof fn lemma_lex_lt_transitive(a: Seq<u8>, b: Seq<u8>, c: Seq<u8>)
    requires
        lex_lt(a, b),
        lex_lt(b, c),
    ensures
        lex_lt(a, c),
{
    let i = choose|i: int| lex_lt_at(a, b, i);
    let j = choose|j: int| lex_lt_at(b, c, j);
    if i < j {
        assert(lex_lt_at(a, c, i));
    } else if j < i {
        assert(a[j] == b[j]);
        assert(lex_lt_at(a, c, j));
    } else {
        assert(lex_lt_at(a, c, i));
    }
}

/// Two byte strings that agree on their first `i` bytes are equal or one of them
/// comes first.
proof fn lemma_lex_lt_total_from(a: Seq<u8>, b: Seq<u8>, i: int)
    requires
        0 <= i <= a.len(),
        i <= b.len(),
        forall|j: int| 0 <= j < i ==> a[j] == b[j],
    ensures
        a == b || lex_lt(a, b) || lex_lt(b, a),
    decreases a.len() - i,
{
    if i == a.len() || i == b.len() {
        if a.len() < b.len() {
            assert(lex_lt_at(a, b, i));
        } else if b.len() < a.len() {
            assert(lex_lt_at(b, a, i));
        } else {
            assert(a =~= b);
        }
    } else if a[i] < b[i] {
        assert(lex_lt_at(a, b, i));
    } else if b[i] < a[i] {
        assert(lex_lt_at(b, a, i));
    } else {
        lemma_lex_lt_total_from(a, b, i + 1);
    }
}

/// The order in which a map keeps its keys is a strict total order: no key comes
/// before itself, of two different keys exactly one comes first, and it is
/// transitive.
pub proof fn law_key_order_is_strict_total(a: Seq<u8>, b: Seq<u8>, c: Seq<u8>)
    ensures
        !lex_lt(a, a),
        a != b ==> (lex_lt(a, b) <==> !lex_lt(b, a)),
        lex_lt(a, b) && lex_lt(b, c) ==> lex_lt(a, c),
{
    lemma_lex_lt_asymmetric(a, b);
    lemma_lex_lt_total_from(a, b, 0);
    if lex_lt(a, b) && lex_lt(b, c) {
        lemma_lex_lt_transitive(a, b, c);
    }
}

/// The outcome of comparing two keys.
#[derive(Debug, Clone, Copy, PartialEq, Eq, Structural)]
pub enum KeyOrder {
    Less,
    Equal,
    Greater,
}

/// Compares two byte strings in the order a map keeps its keys.
pub fn compare_keys(a: &[u8], b: &[u8]) -> (r: KeyOrder)
    ensures
        (r == KeyOrder::Less) <==> lex_lt(a@, b@),
        (r == KeyOrder::Equal) <==> a@ == b@,
        (r == KeyOrder::Greater) <==> lex_lt(b@, a@),
{
    let n = if a.len() < b.len() { a.len() } else { b.len() };
    let mut i: usize = 0;
    while i < n
        invariant
            n <= a@.len(),
            n <= b@.len(),
            n == a@.len() || n == b@.len(),
            i <= n,
            forall|j: int| 0 <= j < i ==> a@[j] == b@[j],
        ensures
            i <= n,
            forall|j: int| 0 <= j < i ==> a@[j] == b@[j],
            i < n ==> a@[i as int] != b@[i as int],
        decreases n - i,
    {
        if a[i] != b[i] {
            break;
        }
        i = i + 1;
    }
    proof {
        lemma_lex_lt_asymmetric(a@, b@);
    }
    if i < n {
        if a[i] < b[i] {
            assert(lex_lt_at(a@, b@, i as int));
            assert(a@ != b@ ) by { assert(a@[i as int] != b@[i as int]); }
            KeyOrder::Less
        } else {
            assert(lex_lt_at(b@, a@, i as int));
            assert(a@ != b@ ) by { assert(a@[i as int] != b@[i as int]); }
            KeyOrder::Greater
        }
    } else if a.len() < b.len() {
        assert(lex_lt_at(a@, b@, i as int));
        KeyOrder::Less
    } else if b.len() < a.len() {
        assert(lex_lt_at(b@, a@, i as int));
        KeyOrder::Greater
    } else {
        assert(a@ =~= b@);
        KeyOrder::Equal
    }
}

} // verus!

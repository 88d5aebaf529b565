//! Identifiers: the non-emptiness policy and the lexicographic order
//! by which questions are listed.
use vstd::prelude::*;

verus! {

/// Lexicographic comparison of `a` and `b` from position `i` onwards, by code point.
pub open spec fn lt_from(a: Seq<char>, b: Seq<char>, i: int) -> bool
    decreases a.len() - i,
{
    if i < 0 || i >= a.len() {
        0 <= i < b.len()
    } else if i >= b.len() {
        false
    } else if a[i] != b[i] {
        (a[i] as int) < (b[i] as int)
    } else {
        lt_from(a, b, i + 1)
    }
}

/// `a` comes strictly before `b` in lexicographic order. On identifiers this is
/// the same order as Rust's byte-wise order on strings, since UTF-8 keeps the
/// order of code points.
pub open spec fn id_lt(a: Seq<char>, b: Seq<char>) -> bool {
    lt_from(a, b, 0)
}

/// An identifier is accepted when it is not empty.
pub open spec fn valid_id(id: Seq<char>) -> bool {
    id.len() > 0
}

pub proof fn lemma_lt_from_irreflexive(a: Seq<char>, i: int)
    requires
        0 <= i,
    ensures
        !lt_from(a, a, i),
    decreases a.len() - i,
{
    if i < a.len() {
        lemma_lt_from_irreflexive(a, i + 1);
    }
}

pub proof fn lemma_lt_from_transitive(a: Seq<char>, b: Seq<char>, c: Seq<char>, i: int)
    requires
        0 <= i,
        lt_from(a, b, i),
        lt_from(b, c, i),
    ensures
        lt_from(a, c, i),
    decreases a.len() - i,
{
    if i < a.len() && i < b.len() && i < c.len() && a[i] == b[i] && b[i] == c[i] {
        lemma_lt_from_transitive(a, b, c, i + 1);
    }
}

pub proof fn lemma_lt_from_total(a: Seq<char>, b: Seq<char>, i: int)
    requires
        0 <= i <= a.len(),
        i <= b.len(),
        !lt_from(a, b, i),
        !lt_from(b, a, i),
    ensures
        a.len() == b.len(),
        forall|j: int| i <= j < a.len() ==> a[j] == b[j],
    decreases a.len() - i,
{
    if i < a.len() && i < b.len() {
        if a[i] == b[i] {
            lemma_lt_from_total(a, b, i + 1);
        } else {
            assert((a[i] as int) != (b[i] as int));
        }
    }
}

/// The order on identifiers is a strict total order.
pub proof fn lemma_id_order(a: Seq<char>, b: Seq<char>, c: Seq<char>)
    ensures
        !id_lt(a, a),
        id_lt(a, b) && id_lt(b, c) ==> id_lt(a, c),
        a != b ==> id_lt(a, b) || id_lt(b, a),
        id_lt(a, b) ==> !id_lt(b, a),
{
    lemma_lt_from_irreflexive(a, 0);
    if id_lt(a, b) && id_lt(b, c) {
        lemma_lt_from_transitive(a, b, c, 0);
    }
    if a != b && !id_lt(a, b) && !id_lt(b, a) {
        lemma_lt_from_total(a, b, 0);
        assert(a =~= b);
    }
    if id_lt(a, b) && id_lt(b, a) {
        lemma_lt_from_transitive(a, b, a, 0);
    }
}

/// Result of comparing two identifiers.
#[derive(PartialEq, Eq, Structural, Clone, Copy, Debug)]
pub enum IdOrder {
    Less,
    Equal,
    Greater,
}

/// Compares two identifiers in lexicographic order.
pub fn compare_ids(a: &str, b: &str) -> (r: IdOrder)
    ensures
        (r == IdOrder::Less) == id_lt(a@, b@),
        (r == IdOrder::Equal) == (a@ == b@),
        (r == IdOrder::Greater) == id_lt(b@, a@),
{
    proof {
        lemma_id_order(a@, b@, a@);
    }
    let n: usize = a.unicode_len();
    let m: usize = b.unicode_len();
    let mut i: usize = 0;
    while i < n && i < m
        invariant
            n == a@.len(),
            m == b@.len(),
            i <= n,
            i <= m,
            id_lt(a@, b@) == lt_from(a@, b@, i as int),
            id_lt(b@, a@) == lt_from(b@, a@, i as int),
            forall|j: int| 0 <= j < i ==> a@[j] == b@[j],
        decreases n - i,
    {
        let x = a.get_char(i);
        let y = b.get_char(i);
        if (x as u32) < (y as u32) {
            return IdOrder::Less;
        }
        if (y as u32) < (x as u32) {
            return IdOrder::Greater;
        }
        assert(x == y) by {
            assert((x as u32) == (y as u32));
        }
        i = i + 1;
    }
    if i < m {
        IdOrder::Less
    } else if i < n {
        IdOrder::Greater
    } else {
        assert(a@ =~= b@);
        IdOrder::Equal
    }
}

/// Whether an externally supplied identifier is acceptable.
pub fn is_valid_id(id: &str) -> (r: bool)
    ensures
        r == valid_id(id@),
{
    !id.is_empty()
}

} // verus!

//! What each reduction of a byte sequence means, as mathematics.
//!
//! Every function here is total: the empty sequence has a fixed result
//! under each reduction.

use vstd::prelude::*;
use vstd::relations::{sorted_by, total_ordering};
use vstd::seq_lib::{lemma_sorted_unique, to_multiset_build};

verus! {

/// The sum of the bytes, as an unbounded integer.
pub open spec fn sum(s: Seq<u8>) -> int
    decreases s.len(),
{
    if s.len() == 0 {
        0
    } else {
        sum(s.drop_last()) + s.last()
    }
}

/// The product of the bytes, as an unbounded integer.
pub open spec fn product(s: Seq<u8>) -> int
    decreases s.len(),
{
    if s.len() == 0 {
        1
    } else {
        product(s.drop_last()) * s.last()
    }
}

/// The sum of the bytes, reduced modulo 256.
pub open spec fn wrapped_sum(s: Seq<u8>) -> u8 {
    (sum(s) % 256) as u8
}

/// The product of the bytes, reduced modulo 256.
pub open spec fn wrapped_product(s: Seq<u8>) -> u8 {
    (product(s) % 256) as u8
}

/// The greatest byte of the sequence; 0 for the empty sequence.
pub open spec fn maximum(s: Seq<u8>) -> u8
    decreases s.len(),
{
    if s.len() == 0 {
        0
    } else if s.last() >= maximum(s.drop_last()) {
        s.last()
    } else {
        maximum(s.drop_last())
    }
}

/// The least byte of the sequence; 0 for the empty sequence.
pub open spec fn minimum(s: Seq<u8>) -> u8
    decreases s.len(),
{
    if s.len() == 0 {
        0
    } else if s.len() == 1 || s.last() <= minimum(s.drop_last()) {
        s.last()
    } else {
        minimum(s.drop_last())
    }
}

/// The sum divided by the length, rounded down; 0 for the empty sequence.
pub open spec fn average(s: Seq<u8>) -> u8 {
    if s.len() == 0 {
        0
    } else {
        (sum(s) / (s.len() as int)) as u8
    }
}

/// The order in which bytes are sorted: numerically ascending.
pub open spec fn byte_leq() -> spec_fn(u8, u8) -> bool {
    |a: u8, b: u8| a <= b
}

/// The bytes of the sequence in ascending order.
pub open spec fn ascending(s: Seq<u8>) -> Seq<u8> {
    s.sort_by(byte_leq())
}

/// The median of a sequence that is already in ascending order: the middle
/// element for an odd length, the mean of the two middle elements, rounded
/// down, for an even length; 0 for the empty sequence.
pub open spec fn middle(t: Seq<u8>) -> u8 {
    let mid = (t.len() / 2) as int;
    if t.len() == 0 {
        0
    } else if t.len() % 2 == 0 {
        ((t[mid - 1] + t[mid]) / 2) as u8
    } else {
        t[mid]
    }
}

/// The median of the sequence: the middle of its bytes in ascending order.
pub open spec fn median(s: Seq<u8>) -> u8 {
    middle(ascending(s))
}

/// How often `value` occurs in `s`.
pub open spec fn occurrences(s: Seq<u8>, value: u8) -> nat {
    s.to_multiset().count(value)
}

/// The bitwise OR of all bytes; 0 for the empty sequence.
pub open spec fn or_reduce(s: Seq<u8>) -> u8
    decreases s.len(),
{
    if s.len() == 0 {
        0
    } else {
        or_reduce(s.drop_last()) | s.last()
    }
}

/// The bitwise AND of all bytes; 0xFF for the empty sequence.
pub open spec fn and_reduce(s: Seq<u8>) -> u8
    decreases s.len(),
{
    if s.len() == 0 {
        0xFF
    } else {
        and_reduce(s.drop_last()) & s.last()
    }
}

/// The bitwise XOR of all bytes; 0 for the empty sequence.
pub open spec fn xor_reduce(s: Seq<u8>) -> u8
    decreases s.len(),
{
    if s.len() == 0 {
        0
    } else {
        xor_reduce(s.drop_last()) ^ s.last()
    }
}

/// The sum of `n` bytes lies between 0 and `255 * n`.
pub proof fn lemma_sum_bounds(s: Seq<u8>)
    ensures
        0 <= sum(s) <= 255 * s.len(),
    decreases s.len(),
{
    if s.len() > 0 {
        lemma_sum_bounds(s.drop_last());
    }
}

/// The product of bytes is never negative.
pub proof fn lemma_product_nonnegative(s: Seq<u8>)
    ensures
        0 <= product(s),
    decreases s.len(),
{
    if s.len() > 0 {
        lemma_product_nonnegative(s.drop_last());
        let p = product(s.drop_last());
        let x = s.last() as int;
        assert(0 <= p * x) by (nonlinear_arith)
            requires
                0 <= p,
                0 <= x,
        ;
    }
}

/// The maximum of a non-empty sequence is one of its bytes, and no byte of
/// the sequence is greater.
pub proof fn lemma_maximum_is_greatest(s: Seq<u8>)
    requires
        s.len() > 0,
    ensures
        s.contains(maximum(s)),
        forall|i: int| 0 <= i < s.len() ==> s[i] <= maximum(s),
    decreases s.len(),
{
    let n = s.len() as int;
    if n == 1 {
        assert(maximum(s.drop_last()) == 0);
        assert(s[0] == maximum(s));
    } else {
        let head = s.drop_last();
        lemma_maximum_is_greatest(head);
        if s.last() >= maximum(head) {
            assert(s[n - 1] == maximum(s));
        } else {
            let k = choose|k: int| 0 <= k < head.len() && head[k] == maximum(head);
            assert(s[k] == maximum(s));
        }
        assert forall|i: int| 0 <= i < s.len() implies s[i] <= maximum(s) by {
            if i < n - 1 {
                assert(head[i] == s[i]);
            }
        }
    }
}

/// The minimum of a non-empty sequence is one of its bytes, and no byte of
/// the sequence is smaller.
pub proof fn lemma_minimum_is_least(s: Seq<u8>)
    requires
        s.len() > 0,
    ensures
        s.contains(minimum(s)),
        forall|i: int| 0 <= i < s.len() ==> minimum(s) <= s[i],
    decreases s.len(),
{
    let n = s.len() as int;
    if n == 1 {
        assert(s[0] == minimum(s));
    } else {
        let head = s.drop_last();
        lemma_minimum_is_least(head);
        if s.last() <= minimum(head) {
            assert(s[n - 1] == minimum(s));
        } else {
            let k = choose|k: int| 0 <= k < head.len() && head[k] == minimum(head);
            assert(s[k] == minimum(s));
        }
        assert forall|i: int| 0 <= i < s.len() implies minimum(s) <= s[i] by {
            if i < n - 1 {
                assert(head[i] == s[i]);
            }
        }
    }
}

/// The sum of a non-empty sequence divided by its length is itself a byte.
pub proof fn lemma_average_in_range(s: Seq<u8>)
    requires
        s.len() > 0,
    ensures
        0 <= sum(s) / (s.len() as int) <= 255,
{
    lemma_sum_bounds(s);
    let t = sum(s);
    let n = s.len() as int;
    assert(0 <= t / n <= 255) by (nonlinear_arith)
        requires
            0 <= t <= 255 * n,
            n > 0,
    ;
}

/// No byte occurs in the empty sequence.
pub proof fn lemma_occurrences_empty(value: u8)
    ensures
        occurrences(Seq::<u8>::empty(), value) == 0,
{
    broadcast use vstd::seq_lib::group_to_multiset_ensures;

    let none = Seq::<u8>::empty();
    assert(none.to_multiset().len() == 0);
    if none.to_multiset().count(value) > 0 {
        assert(none.to_multiset().contains(value));
        assert(none.contains(value));
    }
}

/// Appending a byte raises the number of its occurrences by one and leaves
/// that of every other byte as it was.
pub proof fn lemma_occurrences_push(s: Seq<u8>, appended: u8, value: u8)
    ensures
        occurrences(s.push(appended), value) == occurrences(s, value) + if value == appended {
            1nat
        } else {
            0nat
        },
{
    broadcast use vstd::multiset::group_multiset_axioms;

    to_multiset_build(s, appended);
}

/// Numeric order on bytes is a total order.
pub proof fn lemma_byte_leq_total()
    ensures
        total_ordering(byte_leq()),
{
}

/// `ascending(s)` is in ascending order and holds each byte as often as `s`
/// does.
pub proof fn lemma_ascending_sorts(s: Seq<u8>)
    ensures
        ascending(s).len() == s.len(),
        ascending(s).to_multiset() == s.to_multiset(),
        forall|i: int, j: int| 0 <= i <= j < s.len() ==> ascending(s)[i] <= ascending(s)[j],
{
    lemma_byte_leq_total();
    s.lemma_sort_by_ensures(byte_leq());
    let t = ascending(s);
    s.to_multiset_ensures();
    t.to_multiset_ensures();
    assert forall|i: int, j: int| 0 <= i <= j < s.len() implies t[i] <= t[j] by {
        if i < j {
            assert(byte_leq()(t[i], t[j]));
        }
    }
}

/// A sequence in ascending order that holds each byte as often as `s` does
/// is `ascending(s)`: there is only one such sequence.
pub proof fn lemma_ascending_unique(s: Seq<u8>, t: Seq<u8>)
    requires
        t.to_multiset() == s.to_multiset(),
        forall|i: int, j: int| 0 <= i < j < t.len() ==> t[i] <= t[j],
    ensures
        t == ascending(s),
{
    lemma_byte_leq_total();
    s.lemma_sort_by_ensures(byte_leq());
    assert(sorted_by(t, byte_leq()));
    lemma_sorted_unique(t, ascending(s), byte_leq());
}

} // verus!

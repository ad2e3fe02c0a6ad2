//! Equality and order of aggregates, by what they hold.

use crate::aggregate::{Aggregate, AggregateView};
use core::cmp::Ordering;
use vstd::prelude::*;
use vstd::std_specs::cmp::{PartialEqSpec, PartialEqSpecImpl, PartialOrdSpecImpl};

verus! {

/// How one value stands to another.
#[derive(Clone, Copy, Debug, PartialEq, Eq, Structural)]
pub enum Order {
    Less,
    Equal,
    Greater,
}

/// The order of two byte strings: that of their first differing bytes, or,
/// where one is the start of the other, the shorter first.
pub open spec fn bytes_order(a: Seq<u8>, b: Seq<u8>) -> Order
    decreases a.len(),
{
    if a.len() == 0 {
        if b.len() == 0 {
            Order::Equal
        } else {
            Order::Less
        }
    } else if b.len() == 0 {
        Order::Greater
    } else if a[0] < b[0] {
        Order::Less
    } else if a[0] > b[0] {
        Order::Greater
    } else {
        bytes_order(a.drop_first(), b.drop_first())
    }
}

/// The order of two lists of fields from field `from` on: that of the
/// first pair of fields that differ.
pub open spec fn fields_order(a: Seq<Seq<u8>>, b: Seq<Seq<u8>>, from: int) -> Order
    decreases a.len() - from,
{
    if from < 0 || from >= a.len() {
        Order::Equal
    } else {
        match bytes_order(a[from], b[from]) {
            Order::Equal => fields_order(a, b, from + 1),
            o => o,
        }
    }
}

/// The order of two counts.
pub open spec fn count_order(a: nat, b: nat) -> Order {
    if a < b {
        Order::Less
    } else if a > b {
        Order::Greater
    } else {
        Order::Equal
    }
}

/// The order of two aggregates: by their fields, in order; then by the
/// bytes of their trailing items; then by the number of those items.
pub open spec fn view_order(a: AggregateView, b: AggregateView) -> Order {
    match fields_order(a.fields, b.fields, 0) {
        Order::Equal => match bytes_order(a.trailing, b.trailing) {
            Order::Equal => count_order(a.count, b.count),
            o => o,
        },
        o => o,
    }
}

/// Two byte strings are in order `Equal` exactly when they are the same.
pub proof fn lemma_bytes_order_equal(a: Seq<u8>, b: Seq<u8>)
    ensures
        bytes_order(a, b) == Order::Equal <==> a == b,
    decreases a.len(),
{
    if a.len() == 0 || b.len() == 0 {
        assert(a.len() == 0 && b.len() == 0 ==> a =~= b);
    } else if a[0] == b[0] {
        lemma_bytes_order_equal(a.drop_first(), b.drop_first());
        if a.drop_first() == b.drop_first() {
            assert forall|i: int| 0 <= i < a.len() implies a[i] == b[i] by {
                if i > 0 {
                    assert(a[i] == a.drop_first()[i - 1]);
                    assert(b[i] == b.drop_first()[i - 1]);
                }
            }
            assert(a =~= b);
        }
    }
}

/// Two lists of fields are in order `Equal` from `from` on exactly when
/// they agree from there on.
pub proof fn lemma_fields_order_equal(a: Seq<Seq<u8>>, b: Seq<Seq<u8>>, from: int)
    requires
        0 <= from,
        a.len() == b.len(),
    ensures
        fields_order(a, b, from) == Order::Equal <==> (forall|i: int|
            from <= i < a.len() ==> a[i] == b[i]),
    decreases a.len() - from,
{
    if from < a.len() {
        lemma_bytes_order_equal(a[from], b[from]);
        lemma_fields_order_equal(a, b, from + 1);
    }
}

/// Two aggregates with as many fields are in order `Equal` exactly when
/// they hold the same.
pub proof fn lemma_view_order_equal(a: AggregateView, b: AggregateView)
    requires
        a.fields.len() == b.fields.len(),
    ensures
        view_order(a, b) == Order::Equal <==> a == b,
{
    lemma_fields_order_equal(a.fields, b.fields, 0);
    lemma_bytes_order_equal(a.trailing, b.trailing);
    if view_order(a, b) == Order::Equal {
        assert(a.fields =~= b.fields);
    }
}

/// Compares two byte strings.
pub fn compare_bytes(a: &[u8], b: &[u8]) -> (r: Order)
    ensures
        r == bytes_order(a@, b@),
{
    let mut i: usize = 0;
    proof {
        assert(a@.skip(0) =~= a@);
        assert(b@.skip(0) =~= b@);
    }
    while i < a.len() && i < b.len()
        invariant
            i <= a@.len(),
            i <= b@.len(),
            bytes_order(a@, b@) == bytes_order(a@.skip(i as int), b@.skip(i as int)),
        decreases a@.len() - i,
    {
        proof {
            let x = a@.skip(i as int);
            let y = b@.skip(i as int);
            assert(x.drop_first() =~= a@.skip(i + 1));
            assert(y.drop_first() =~= b@.skip(i + 1));
        }
        if a[i] < b[i] {
            return Order::Less;
        }
        if a[i] > b[i] {
            return Order::Greater;
        }
        i += 1;
    }
    if i < b.len() {
        Order::Less
    } else if i < a.len() {
        Order::Greater
    } else {
        Order::Equal
    }
}

impl<const N: usize> Aggregate<N> {
    /// Compares two aggregates by what they hold: field by field, then by
    /// the bytes of the trailing items, then by the number of those items.
    /// Padding plays no part.
    pub fn compare(&self, other: &Self) -> (r: Order)
        ensures
            r == view_order(self@, other@),
            r == Order::Equal <==> self@ == other@,
    {
        proof {
            lemma_view_order_equal(self@, other@);
        }
        let mut i: usize = 0;
        while i < N
            invariant
                i <= N,
                self@.fields.len() == N,
                other@.fields.len() == N,
                view_order(self@, other@) == Order::Equal <==> self@ == other@,
                fields_order(self@.fields, other@.fields, 0) == fields_order(
                    self@.fields,
                    other@.fields,
                    i as int,
                ),
            decreases N - i,
        {
            match compare_bytes(self.field(i), other.field(i)) {
                Order::Equal => {},
                o => {
                    return o;
                },
            }
            i += 1;
        }
        match compare_bytes(self.trailing(), other.trailing()) {
            Order::Equal => {},
            o => {
                return o;
            },
        }
        let mine = self.len();
        let theirs = other.len();
        if mine < theirs {
            Order::Less
        } else if mine > theirs {
            Order::Greater
        } else {
            Order::Equal
        }
    }
}

impl<const N: usize> PartialEq for Aggregate<N> {
    /// Two aggregates are equal when they hold the same.
    fn eq(&self, other: &Self) -> (r: bool) {
        match self.compare(other) {
            Order::Equal => true,
            _ => false,
        }
    }
}

impl<const N: usize> PartialEqSpecImpl for Aggregate<N> {
    open spec fn obeys_eq_spec() -> bool {
        true
    }

    open spec fn eq_spec(&self, other: &Self) -> bool {
        self@ == other@
    }
}

impl<const N: usize> PartialOrd for Aggregate<N> {
    /// Aggregates are ordered as `compare` orders them.
    fn partial_cmp(&self, other: &Self) -> (r: Option<Ordering>) {
        match self.compare(other) {
            Order::Less => Some(Ordering::Less),
            Order::Equal => Some(Ordering::Equal),
            Order::Greater => Some(Ordering::Greater),
        }
    }
}

impl<const N: usize> PartialOrdSpecImpl for Aggregate<N> {
    open spec fn obeys_partial_cmp_spec() -> bool {
        true
    }

    open spec fn partial_cmp_spec(&self, other: &Self) -> Option<Ordering> {
        match view_order(self@, other@) {
            Order::Less => Some(Ordering::Less),
            Order::Equal => Some(Ordering::Equal),
            Order::Greater => Some(Ordering::Greater),
        }
    }
}

/// Equality and order look at the fields and the trailing items alone.
/// Two aggregates with as many trailing items, whose fields and trailing
/// items hold the same bytes, are equal, and each stands to any third as
/// the other does, whatever the padding of their blocks holds.
pub proof fn lemma_padding_is_not_compared<const N: usize>(
    a: Aggregate<N>,
    b: Aggregate<N>,
    c: Aggregate<N>,
)
    requires
        a.spec_len() == b.spec_len(),
        forall|i: int| 0 <= i < N ==> a.field_bytes(i) == b.field_bytes(i),
        a.trailing_bytes() == b.trailing_bytes(),
    ensures
        PartialEqSpec::eq_spec(&a, &b),
        view_order(a@, b@) == Order::Equal,
        view_order(a@, c@) == view_order(b@, c@),
        view_order(c@, a@) == view_order(c@, b@),
{
    assert(a@.fields =~= b@.fields);
    lemma_view_order_equal(a@, b@);
}

} // verus!

//! Where the fields and the trailing items of an aggregate lie, and how
//! large the aggregate is.

use super::rounding::{
    lemma_multiple_of_multiple, lemma_pow2_divides, lemma_round_up, lemma_round_up_twice,
    lemma_sum_of_multiples, lemma_valid_layout_smaller, max_align, max_size, round_up,
    valid_layout,
};
use super::FieldLayout;
use vstd::arithmetic::div_mod::{lemma_fundamental_div_mod, lemma_mod_multiples_basic};
use vstd::arithmetic::power2::is_pow2;
use vstd::prelude::*;

verus! {

/// Every layout of the sequence is well formed.
pub open spec fn all_wf(fields: Seq<FieldLayout>) -> bool {
    forall|i: int| 0 <= i < fields.len() ==> (#[trigger] fields[i]).wf()
}

/// Where the first `n` fields end when each is placed, in order, at the
/// first offset after its predecessor that its alignment allows.
pub open spec fn fields_end(fields: Seq<FieldLayout>, n: int) -> int
    decreases n,
{
    if n <= 0 {
        0
    } else {
        round_up(fields_end(fields, n - 1), fields[n - 1].align() as int) + fields[n - 1].size()
    }
}

/// The offset of field `i`.
pub open spec fn field_offset(fields: Seq<FieldLayout>, i: int) -> int {
    round_up(fields_end(fields, i), fields[i].align() as int)
}

/// The largest alignment among the first `n` fields; 1 if there is none.
pub open spec fn fields_align(fields: Seq<FieldLayout>, n: int) -> int
    decreases n,
{
    if n <= 0 {
        1
    } else {
        max_align(fields_align(fields, n - 1), fields[n - 1].align() as int)
    }
}

/// The offset at which the trailing items start.
pub open spec fn trailing_offset(fields: Seq<FieldLayout>, item: FieldLayout) -> int {
    round_up(fields_end(fields, fields.len() as int), item.align() as int)
}

/// The alignment of the aggregate: the largest among its fields and its items.
pub open spec fn aggregate_align(fields: Seq<FieldLayout>, item: FieldLayout) -> int {
    max_align(fields_align(fields, fields.len() as int), item.align() as int)
}

/// Where the last of `count` trailing items ends.
pub open spec fn unpadded_size(fields: Seq<FieldLayout>, item: FieldLayout, count: int) -> int {
    trailing_offset(fields, item) + count * item.size()
}

/// The size of the aggregate: the end of its last item, rounded up to the
/// aggregate's alignment.
pub open spec fn aggregate_size(fields: Seq<FieldLayout>, item: FieldLayout, count: int) -> int {
    round_up(unpadded_size(fields, item, count), aggregate_align(fields, item))
}

/// The aggregate is no larger than a block may be.
pub open spec fn fits(fields: Seq<FieldLayout>, item: FieldLayout, count: int) -> bool {
    aggregate_size(fields, item, count) <= max_size()
}

/// The end and the alignment of a prefix: neither is negative, the alignment
/// is a power of two that a `usize` holds, and both grow with the prefix.
pub proof fn lemma_fields_prefix(fields: Seq<FieldLayout>, i: int, j: int)
    requires
        all_wf(fields),
        0 <= i <= j <= fields.len(),
    ensures
        0 <= fields_end(fields, i) <= fields_end(fields, j),
        1 <= fields_align(fields, i) <= fields_align(fields, j) <= usize::MAX,
        is_pow2(fields_align(fields, j)),
    decreases j,
{
    if j == 0 {
        reveal(is_pow2);
    } else if i == j {
        lemma_fields_prefix(fields, i - 1, j - 1);
        let f = fields[j - 1];
        f.lemma_wf();
        lemma_round_up(fields_end(fields, j - 1), f.align() as int);
    } else {
        lemma_fields_prefix(fields, i, j - 1);
        let f = fields[j - 1];
        f.lemma_wf();
        lemma_round_up(fields_end(fields, j - 1), f.align() as int);
    }
}

/// Each field starts at a multiple of its alignment, not before the end of
/// the field before it, and ends where the next prefix ends.
pub proof fn lemma_field_offset(fields: Seq<FieldLayout>, i: int)
    requires
        all_wf(fields),
        0 <= i < fields.len(),
    ensures
        field_offset(fields, i) % (fields[i].align() as int) == 0,
        fields_end(fields, i) <= field_offset(fields, i),
        field_offset(fields, i) + fields[i].size() == fields_end(fields, i + 1),
        (fields[i].align() as int) <= fields_align(fields, i + 1),
{
    lemma_fields_prefix(fields, i, i);
    fields[i].lemma_wf();
    lemma_round_up(fields_end(fields, i), fields[i].align() as int);
}

/// Fields do not overlap: an earlier field ends before a later one starts.
/// So the offsets never decrease, and they increase behind every field
/// that takes up room.
pub proof fn lemma_fields_disjoint(fields: Seq<FieldLayout>, i: int, j: int)
    requires
        all_wf(fields),
        0 <= i < j < fields.len(),
    ensures
        field_offset(fields, i) + fields[i].size() <= field_offset(fields, j),
        fields[i].size() > 0 ==> field_offset(fields, i) < field_offset(fields, j),
{
    lemma_field_offset(fields, i);
    lemma_field_offset(fields, j);
    lemma_fields_prefix(fields, i + 1, j);
}

/// The alignment of the aggregate is a power of two that the alignment of
/// each field divides, and that of the items too.
pub proof fn lemma_aggregate_align(fields: Seq<FieldLayout>, item: FieldLayout, i: int)
    requires
        all_wf(fields),
        item.wf(),
    ensures
        is_pow2(aggregate_align(fields, item)),
        1 <= aggregate_align(fields, item) <= usize::MAX,
        0 <= i < fields.len() ==> aggregate_align(fields, item) % (fields[i].align() as int) == 0,
        aggregate_align(fields, item) % (item.align() as int) == 0,
{
    let n = fields.len() as int;
    lemma_fields_prefix(fields, n, n);
    item.lemma_wf();
    lemma_pow2_divides(item.align() as int, aggregate_align(fields, item));
    if 0 <= i < fields.len() {
        lemma_fields_prefix(fields, i + 1, n);
        lemma_field_offset(fields, i);
        fields[i].lemma_wf();
        lemma_pow2_divides(fields[i].align() as int, aggregate_align(fields, item));
    }
}

/// The trailing items start at a multiple of their alignment, at or after
/// the end of the last field and less than one alignment beyond it.
pub proof fn lemma_trailing_offset(fields: Seq<FieldLayout>, item: FieldLayout)
    requires
        all_wf(fields),
        item.wf(),
    ensures
        trailing_offset(fields, item) % (item.align() as int) == 0,
        fields_end(fields, fields.len() as int) <= trailing_offset(fields, item),
        trailing_offset(fields, item) < fields_end(fields, fields.len() as int) + item.align(),
        forall|i: int|
            0 <= i < fields.len() ==> #[trigger] field_offset(fields, i) + fields[i].size()
                <= trailing_offset(fields, item),
{
    let n = fields.len() as int;
    lemma_fields_prefix(fields, n, n);
    item.lemma_wf();
    lemma_round_up(fields_end(fields, n), item.align() as int);
    assert forall|i: int| 0 <= i < fields.len() implies #[trigger] field_offset(fields, i)
        + fields[i].size() <= trailing_offset(fields, item) by {
        lemma_field_offset(fields, i);
        lemma_fields_prefix(fields, i + 1, n);
    }
}

/// In a block whose address is a multiple of the aggregate's alignment,
/// each field lies at an address that is a multiple of the field's
/// alignment, and the trailing items lie at a multiple of theirs.
pub proof fn lemma_addresses_aligned(
    fields: Seq<FieldLayout>,
    item: FieldLayout,
    base: int,
    i: int,
)
    requires
        all_wf(fields),
        item.wf(),
        0 <= base,
        base % aggregate_align(fields, item) == 0,
    ensures
        0 <= i < fields.len() ==> (base + field_offset(fields, i)) % (fields[i].align() as int)
            == 0,
        (base + trailing_offset(fields, item)) % (item.align() as int) == 0,
{
    let whole = aggregate_align(fields, item);
    lemma_aggregate_align(fields, item, i);
    lemma_trailing_offset(fields, item);
    item.lemma_wf();
    lemma_multiple_of_multiple(base, whole, item.align() as int);
    lemma_sum_of_multiples(base, trailing_offset(fields, item), item.align() as int);
    if 0 <= i < fields.len() {
        fields[i].lemma_wf();
        lemma_field_offset(fields, i);
        lemma_multiple_of_multiple(base, whole, fields[i].align() as int);
        lemma_sum_of_multiples(base, field_offset(fields, i), fields[i].align() as int);
    }
}

/// The aggregate's size is a multiple of its alignment and covers all items.
pub proof fn lemma_aggregate_size(fields: Seq<FieldLayout>, item: FieldLayout, count: int)
    requires
        all_wf(fields),
        item.wf(),
        0 <= count,
    ensures
        aggregate_size(fields, item, count) % aggregate_align(fields, item) == 0,
        0 <= trailing_offset(fields, item) <= unpadded_size(fields, item, count)
            <= aggregate_size(fields, item, count),
        aggregate_size(fields, item, count) < unpadded_size(fields, item, count) + aggregate_align(
            fields,
            item,
        ),
        is_pow2(aggregate_align(fields, item)),
        1 <= aggregate_align(fields, item) <= usize::MAX,
        fits(fields, item, count) <==> valid_layout(
            unpadded_size(fields, item, count),
            aggregate_align(fields, item),
        ),
{
    let n = fields.len() as int;
    lemma_fields_prefix(fields, n, n);
    lemma_trailing_offset(fields, item);
    item.lemma_wf();
    assert(0 <= count * item.size()) by (nonlinear_arith)
        requires
            0 <= count,
            0 <= item.size(),
    ;
    lemma_round_up(unpadded_size(fields, item, count), aggregate_align(fields, item));
}

/// With no trailing item, the aggregate's size is the end of its last field
/// rounded up to the aggregate's alignment. Where the items are aligned no
/// more strictly than the fields, that is the padded size of the fields alone.
pub proof fn lemma_no_items(fields: Seq<FieldLayout>, item: FieldLayout)
    requires
        all_wf(fields),
        item.wf(),
    ensures
        aggregate_size(fields, item, 0) == round_up(
            fields_end(fields, fields.len() as int),
            aggregate_align(fields, item),
        ),
        item.align() <= fields_align(fields, fields.len() as int) ==> aggregate_size(
            fields,
            item,
            0,
        ) == round_up(
            fields_end(fields, fields.len() as int),
            fields_align(fields, fields.len() as int),
        ),
{
    let n = fields.len() as int;
    lemma_fields_prefix(fields, n, n);
    item.lemma_wf();
    lemma_pow2_divides(item.align() as int, aggregate_align(fields, item));
    lemma_round_up_twice(fields_end(fields, n), item.align() as int, aggregate_align(fields, item));
}

/// With no field, the aggregate is the array of its items: it starts at
/// offset 0, has the items' alignment and the size of `count` items,
/// rounded up to that alignment; and it fits exactly when that array is a
/// valid layout. Where the item size is a multiple of the item alignment,
/// as the size of every type is, the rounding adds nothing.
pub proof fn lemma_no_fields(item: FieldLayout, count: int)
    requires
        item.wf(),
        0 <= count,
    ensures
        trailing_offset(Seq::<FieldLayout>::empty(), item) == 0,
        aggregate_align(Seq::<FieldLayout>::empty(), item) == item.align(),
        unpadded_size(Seq::<FieldLayout>::empty(), item, count) == count * item.size(),
        aggregate_size(Seq::<FieldLayout>::empty(), item, count) == round_up(
            count * item.size(),
            item.align() as int,
        ),
        item.size() % item.align() == 0 ==> aggregate_size(
            Seq::<FieldLayout>::empty(),
            item,
            count,
        ) == count * item.size(),
        fits(Seq::<FieldLayout>::empty(), item, count) <==> valid_layout(
            count * item.size(),
            item.align() as int,
        ),
{
    let fields = Seq::<FieldLayout>::empty();
    item.lemma_wf();
    lemma_round_up(0, item.align() as int);
    lemma_aggregate_size(fields, item, count);
    if item.size() % item.align() == 0 {
        let k = item.size() as int / item.align() as int;
        lemma_fundamental_div_mod(item.size() as int, item.align() as int);
        assert(count * item.size() == (count * k) * item.align()) by (nonlinear_arith)
            requires
                item.size() == item.align() * k,
        ;
        lemma_mod_multiples_basic(count * k, item.align() as int);
        lemma_round_up(count * item.size(), item.align() as int);
    }
}

/// If the whole aggregate fits, so does every prefix of its fields, and so
/// does the array of its items.
pub proof fn lemma_fits_parts(fields: Seq<FieldLayout>, item: FieldLayout, count: int, n: int)
    requires
        all_wf(fields),
        item.wf(),
        0 <= count,
        0 <= n <= fields.len(),
        fits(fields, item, count),
    ensures
        valid_layout(fields_end(fields, n), fields_align(fields, n)),
        valid_layout(count * item.size(), item.align() as int),
{
    let len = fields.len() as int;
    lemma_fields_prefix(fields, n, len);
    lemma_fields_prefix(fields, n, n);
    lemma_trailing_offset(fields, item);
    lemma_aggregate_size(fields, item, count);
    item.lemma_wf();
    assert(0 <= count * item.size()) by (nonlinear_arith)
        requires
            0 <= count,
            0 <= item.size(),
    ;
    lemma_valid_layout_smaller(
        fields_end(fields, n),
        fields_align(fields, n),
        unpadded_size(fields, item, count),
        aggregate_align(fields, item),
    );
    lemma_valid_layout_smaller(
        count * item.size(),
        item.align() as int,
        unpadded_size(fields, item, count),
        aggregate_align(fields, item),
    );
}

} // verus!

//! The engine behind the constructors: layout of an aggregate, the cursor
//! that hands out the fields' addresses, the kinds of trailing sequence,
//! and the construction itself.

use crate::aggregate::Aggregate;
use crate::layout::{
    aggregate_align, aggregate_size, all_wf, field_offset, fields_align, fields_end, fits,
    lemma_aggregate_size, lemma_field_offset, lemma_fields_disjoint, lemma_fields_prefix,
    lemma_fits_parts, lemma_trailing_offset, trailing_offset, FieldLayout, LayoutError,
};
use crate::smart_pointer::{splice, DropGuard, SmartPointer};
use vstd::prelude::*;

mod sealed;
mod trailing;

pub use trailing::{nul_terminated, AsSlice, NulTerminated, RawSlice};

verus! {

/// What an [`Offsets`] cursor is: the address of the block, the offset of
/// each field in it, and the number of addresses handed out so far.
pub struct OffsetsView {
    pub base: usize,
    pub offsets: Seq<usize>,
    pub curr: nat,
}

/// Hands out the addresses of the fields of a block, one after the other
/// and each once.
pub struct Offsets<const N: usize> {
    base: usize,
    offsets: [usize; N],
    curr: usize,
}

impl<const N: usize> View for Offsets<N> {
    type V = OffsetsView;

    closed spec fn view(&self) -> OffsetsView {
        OffsetsView { base: self.base, offsets: self.offsets@, curr: self.curr as nat }
    }
}

impl<const N: usize> Offsets<N> {
    #[verifier::type_invariant]
    spec fn inv(&self) -> bool {
        &&& self.curr <= N
        &&& forall|i: int| 0 <= i < N ==> self.base + #[trigger] self.offsets@[i] <= usize::MAX
    }

    /// Well-formedness: there is one offset for each of the `N` fields, no
    /// more than `N` addresses were handed out, and every address fits in a
    /// `usize`. Every cursor that executable code holds is well formed.
    pub open spec fn wf(&self) -> bool {
        &&& self@.offsets.len() == N
        &&& self@.curr <= N
        &&& forall|i: int| 0 <= i < N ==> self@.base + #[trigger] self@.offsets[i] <= usize::MAX
    }

    /// A cursor over the fields at `offsets` in the block at `base`, before
    /// its first field.
    pub fn new(base: usize, offsets: [usize; N]) -> (r: Self)
        requires
            forall|i: int| 0 <= i < N ==> base + #[trigger] offsets@[i] <= usize::MAX,
        ensures
            r@ == (OffsetsView { base, offsets: offsets@, curr: 0 }),
            r.wf(),
    {
        Offsets { base, offsets, curr: 0 }
    }

    /// The address of the next field. The cursor moves on by one field.
    pub fn get_next(&mut self) -> (r: usize)
        requires
            old(self)@.curr < N,
        ensures
            r == old(self)@.base + old(self)@.offsets[old(self)@.curr as int],
            final(self)@ == (OffsetsView { curr: old(self)@.curr + 1, ..old(self)@ }),
            final(self).wf(),
    {
        proof {
            use_type_invariant(&*self);
        }
        let ret = self.base + self.offsets[self.curr];
        self.curr += 1;
        ret
    }

    /// The address of the block.
    pub fn base(&self) -> (r: usize)
        ensures
            r == self@.base,
            self.wf(),
    {
        proof {
            use_type_invariant(self);
        }
        self.base
    }

    /// The number of addresses handed out so far.
    pub fn position(&self) -> (r: usize)
        ensures
            r == self@.curr,
            self.wf(),
    {
        proof {
            use_type_invariant(self);
        }
        self.curr
    }
}

/// Establishes that each layout of the array is well formed, as every
/// layout that exists at run time is.
fn fields_are_wf<const N: usize>(fields: &[FieldLayout; N])
    ensures
        all_wf(fields@),
{
    let mut i: usize = 0;
    while i < N
        invariant
            i <= N,
            forall|j: int| 0 <= j < i ==> (#[trigger] fields@[j]).wf(),
        decreases N - i,
    {
        let _ = fields[i].align();
        i += 1;
    }
}

/// Computes the layout of an aggregate: where each of its fields starts,
/// where its trailing items start, and the size and alignment of the whole.
///
/// The fields are placed in order, each at the first offset at or after the
/// end of its predecessor that is a multiple of its alignment; the `count`
/// trailing items follow by the same rule; and the size of the whole is
/// rounded up to the largest alignment among them. The computation fails
/// exactly when that size would exceed `isize::MAX`.
pub fn calc_offsets<const N: usize>(
    normal_fields: [FieldLayout; N],
    item: FieldLayout,
    count: usize,
) -> (r: Result<(FieldLayout, [usize; N], usize), LayoutError>)
    ensures
        r is Ok <==> fits(normal_fields@, item, count as int),
        r matches Ok((layout, offsets, last_offset)) ==> {
            &&& layout.wf()
            &&& layout.size() == aggregate_size(normal_fields@, item, count as int)
            &&& layout.align() == aggregate_align(normal_fields@, item)
            &&& forall|i: int| 0 <= i < N ==> offsets@[i] == field_offset(normal_fields@, i)
            &&& forall|i: int|
                0 <= i < N ==> (#[trigger] offsets@[i]) as int % normal_fields@[i].align() as int
                    == 0
            &&& last_offset == trailing_offset(normal_fields@, item)
            &&& last_offset as int % item.align() as int == 0
            &&& last_offset >= fields_end(normal_fields@, N as int)
        },
{
    fields_are_wf(&normal_fields);
    let ghost fields = normal_fields@;
    let item_align = item.align();
    proof {
        lemma_aggregate_size(fields, item, count as int);
    }
    let mut offsets: [usize; N] = [0; N];
    let mut layout = FieldLayout::empty();
    let mut i: usize = 0;
    while i < N
        invariant
            i <= N,
            fields == normal_fields@,
            fields.len() == N,
            all_wf(fields),
            item.wf(),
            layout.wf(),
            layout.size() == fields_end(fields, i as int),
            layout.align() == fields_align(fields, i as int),
            forall|j: int| 0 <= j < i ==> offsets@[j] == field_offset(fields, j),
        decreases N - i,
    {
        match layout.extend(normal_fields[i]) {
            Err(e) => {
                proof {
                    if fits(fields, item, count as int) {
                        lemma_fits_parts(fields, item, count as int, i + 1);
                    }
                }
                return Err(e);
            },
            Ok((next, offset)) => {
                layout = next;
                offsets[i] = offset;
            },
        }
        i += 1;
    }
    let items = match FieldLayout::array(item, count) {
        Err(e) => {
            proof {
                if fits(fields, item, count as int) {
                    lemma_fits_parts(fields, item, count as int, 0);
                }
            }
            return Err(e);
        },
        Ok(items) => items,
    };
    match layout.extend(items) {
        Err(e) => Err(e),
        Ok((whole, last_offset)) => {
            proof {
                lemma_trailing_offset(fields, item);
                assert forall|i: int| 0 <= i < N implies (#[trigger] offsets@[i]) as int
                    % fields[i].align() as int == 0 by {
                    lemma_field_offset(fields, i);
                }
            }
            Ok((whole.pad_to_align(), offsets, last_offset))
        },
    }
}

/// The value of a fixed field: its layout and the bytes that stand for it.
#[derive(Clone, Copy, Debug)]
pub struct FieldValue<'a> {
    layout: FieldLayout,
    bytes: &'a [u8],
}

impl<'a> FieldValue<'a> {
    #[verifier::type_invariant]
    spec fn inv(&self) -> bool {
        self.bytes@.len() == self.layout.size()
    }

    /// The layout of the field.
    pub closed spec fn spec_layout(&self) -> FieldLayout {
        self.layout
    }

    /// The bytes of the value.
    pub closed spec fn spec_bytes(&self) -> Seq<u8> {
        self.bytes@
    }

    /// Well-formedness: the layout is valid and the value has its size.
    /// Every field value that executable code holds is well formed.
    pub open spec fn wf(&self) -> bool {
        &&& self.spec_layout().wf()
        &&& self.spec_bytes().len() == self.spec_layout().size()
    }

    /// The value `bytes` of a field of layout `layout`, if it has the size
    /// that the layout gives.
    pub fn new(layout: FieldLayout, bytes: &'a [u8]) -> (r: Option<Self>)
        ensures
            r is Some <==> bytes@.len() == layout.size(),
            r matches Some(v) ==> v.spec_layout() == layout && v.spec_bytes() == bytes@ && v.wf(),
    {
        if bytes.len() == layout.size() {
            Some(FieldValue { layout, bytes })
        } else {
            None
        }
    }

    /// The layout of the field.
    pub fn layout(&self) -> (r: FieldLayout)
        ensures
            r == self.spec_layout(),
            self.wf(),
    {
        proof {
            use_type_invariant(self);
        }
        let _ = self.layout.size();
        self.layout
    }

    /// The bytes of the value.
    pub fn bytes(&self) -> (r: &'a [u8])
        ensures
            r@ == self.spec_bytes(),
            self.wf(),
    {
        proof {
            use_type_invariant(self);
        }
        let _ = self.layout.size();
        self.bytes
    }
}

/// The layouts of the fields, in order.
pub open spec fn layouts(fields: Seq<FieldValue>) -> Seq<FieldLayout> {
    Seq::new(fields.len(), |i: int| fields[i].spec_layout())
}

/// The values of the fields, in order.
pub open spec fn contents(fields: Seq<FieldValue>) -> Seq<Seq<u8>> {
    Seq::new(fields.len(), |i: int| fields[i].spec_bytes())
}

/// Every field value of the sequence is well formed.
pub open spec fn all_values_wf(fields: Seq<FieldValue>) -> bool {
    forall|i: int| 0 <= i < fields.len() ==> (#[trigger] fields[i]).wf()
}

/// The layouts of the fields, in order.
fn layouts_of<const N: usize>(normal_fields: &[FieldValue; N]) -> (r: [FieldLayout; N])
    ensures
        r@ == layouts(normal_fields@),
        all_wf(r@),
        all_values_wf(normal_fields@),
{
    let mut r: [FieldLayout; N] = [FieldLayout::empty(); N];
    let mut i: usize = 0;
    while i < N
        invariant
            i <= N,
            forall|j: int|
                0 <= j < i ==> r@[j] == normal_fields@[j].spec_layout() && (
                #[trigger] normal_fields@[j]).wf(),
        decreases N - i,
    {
        r[i] = normal_fields[i].layout();
        i += 1;
    }
    r
}

/// Writes the value of each fixed field into the block: one call of
/// `get_next` for each field, in order, and one write at the address it
/// returns.
fn init_normal_fields<const N: usize>(
    offsets: &mut Offsets<N>,
    guard: &mut DropGuard,
    normal_fields: &[FieldValue; N],
)
    requires
        all_values_wf(normal_fields@),
        old(offsets)@.curr == 0,
        old(offsets)@.base == old(guard)@.base,
        old(offsets)@.offsets.len() == N,
        forall|i: int|
            0 <= i < N ==> old(offsets)@.offsets[i] == field_offset(layouts(normal_fields@), i),
        fields_end(layouts(normal_fields@), N as int) <= old(guard)@.layout.size(),
    ensures
        final(offsets)@.curr == N,
        final(offsets)@.base == old(offsets)@.base,
        final(offsets)@.offsets == old(offsets)@.offsets,
        final(guard).wf(),
        final(guard)@.base == old(guard)@.base,
        final(guard)@.layout == old(guard)@.layout,
        forall|i: int|
            0 <= i < N ==> final(guard)@.bytes.subrange(
                field_offset(layouts(normal_fields@), i),
                field_offset(layouts(normal_fields@), i) + layouts(normal_fields@)[i].size(),
            ) == (#[trigger] normal_fields@[i]).spec_bytes(),
{
    let ghost fields = layouts(normal_fields@);
    let base = guard.base();
    let mut i: usize = 0;
    while i < N
        invariant
            i <= N,
            fields == layouts(normal_fields@),
            fields.len() == N,
            all_wf(fields),
            all_values_wf(normal_fields@),
            offsets@.curr == i,
            offsets@.base == base,
            offsets@.offsets == old(offsets)@.offsets,
            offsets@.offsets.len() == N,
            forall|j: int| 0 <= j < N ==> offsets@.offsets[j] == field_offset(fields, j),
            guard.wf(),
            guard@.base == base,
            guard@.base == old(guard)@.base,
            guard@.layout == old(guard)@.layout,
            fields_end(fields, N as int) <= guard@.layout.size(),
            forall|j: int|
                0 <= j < i ==> guard@.bytes.subrange(
                    field_offset(fields, j),
                    field_offset(fields, j) + fields[j].size(),
                ) == (#[trigger] normal_fields@[j]).spec_bytes(),
        decreases N - i,
    {
        let ghost before = guard@.bytes;
        let ghost at = field_offset(fields, i as int);
        let value = normal_fields[i].bytes();
        proof {
            lemma_field_offset(fields, i as int);
            lemma_fields_prefix(fields, i as int, i as int);
            lemma_fields_prefix(fields, i + 1, N as int);
        }
        let addr = offsets.get_next();
        guard.write(addr, value);
        proof {
            assert(guard@.bytes == splice(before, at, value@));
            assert(guard@.bytes.subrange(at, at + fields[i as int].size()) =~= value@);
            assert forall|j: int| 0 <= j < i implies guard@.bytes.subrange(
                field_offset(fields, j),
                field_offset(fields, j) + fields[j].size(),
            ) == (#[trigger] normal_fields@[j]).spec_bytes() by {
                lemma_fields_disjoint(fields, j, i as int);
                lemma_field_offset(fields, j);
                lemma_fields_prefix(fields, j, j);
                assert(guard@.bytes.subrange(
                    field_offset(fields, j),
                    field_offset(fields, j) + fields[j].size(),
                ) =~= before.subrange(
                    field_offset(fields, j),
                    field_offset(fields, j) + fields[j].size(),
                ));
            }
        }
        i += 1;
    }
}

/// Builds an aggregate in a block of its own: computes the layout,
/// allocates the block through the pointer type `R`, writes the value of
/// each fixed field at its offset, copies the trailing items behind them,
/// and takes the finished block from its guard.
///
/// Where the aggregate would be larger than `isize::MAX` bytes, nothing is
/// allocated and the error is returned.
pub fn allocate<R, D, const N: usize>(normal_fields: [FieldValue; N], unsized_field: &D) -> (r:
    Result<Aggregate<N>, LayoutError>) where R: SmartPointer<Aggregate<N>>, D: AsSlice + ?Sized
    ensures
        r is Ok <==> fits(
            layouts(normal_fields@),
            unsized_field.spec_item(),
            unsized_field.spec_count() as int,
        ),
        r matches Ok(a) ==> a.built_from(
            layouts(normal_fields@),
            contents(normal_fields@),
            unsized_field.spec_item(),
            unsized_field.spec_count(),
            unsized_field.spec_content(),
        ),
{
    let item = unsized_field.item_layout();
    let count = unsized_field.count();
    let slice = unsized_field.as_slice();
    let field_layouts = layouts_of(&normal_fields);
    let ghost fields = field_layouts@;
    let (layout, offsets, last_offset) = match calc_offsets(field_layouts, item, count) {
        Ok(found) => found,
        Err(e) => {
            return Err(e);
        },
    };
    proof {
        lemma_trailing_offset(fields, item);
        lemma_aggregate_size(fields, item, count as int);
        assert forall|i: int| 0 <= i < N implies field_offset(fields, i) <= layout.size() by {
            lemma_field_offset(fields, i);
            lemma_fields_prefix(fields, i, i);
        }
    }
    let (base, mut guard) = R::allocate(layout);
    let mut cursor = Offsets::new(base, offsets);
    init_normal_fields(&mut cursor, &mut guard, &normal_fields);
    let ghost written = guard@.bytes;
    if !slice.is_empty() {
        guard.write(base + last_offset, slice);
    }
    let bytes = guard.disarm();
    proof {
        assert(bytes@.subrange(last_offset as int, last_offset + count * item.size()) =~= slice@);
        assert forall|i: int| 0 <= i < N implies bytes@.subrange(
            field_offset(fields, i),
            field_offset(fields, i) + fields[i].size(),
        ) == (#[trigger] normal_fields@[i]).spec_bytes() by {
            lemma_field_offset(fields, i);
            lemma_fields_prefix(fields, i, i);
            assert(bytes@.subrange(
                field_offset(fields, i),
                field_offset(fields, i) + fields[i].size(),
            ) =~= written.subrange(
                field_offset(fields, i),
                field_offset(fields, i) + fields[i].size(),
            ));
        }
    }
    let built = Aggregate::from_parts(
        field_layouts,
        offsets,
        item,
        count,
        last_offset,
        layout,
        base,
        bytes,
    );
    proof {
        assert(built@.fields =~= contents(normal_fields@));
    }
    Ok(built)
}

} // verus!

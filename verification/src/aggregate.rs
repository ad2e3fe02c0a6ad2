//! The finished aggregate: fixed fields and trailing items in one block.

use crate::layout::{
    aggregate_align, aggregate_size, all_wf, field_offset, fits, lemma_aggregate_size,
    lemma_field_offset, lemma_fields_prefix, lemma_trailing_offset, trailing_offset, FieldLayout,
    LayoutError,
};
use crate::private::{allocate, contents, layouts, AsSlice, FieldValue};
use crate::smart_pointer::{block_at, SmartPointer};
use vstd::prelude::*;
use vstd::slice::slice_subrange;

verus! {

/// What an aggregate holds, padding left aside: the bytes of each fixed
/// field, the number of trailing items, and their bytes.
pub struct AggregateView {
    pub fields: Seq<Seq<u8>>,
    pub count: nat,
    pub trailing: Seq<u8>,
}

/// `N` fixed fields followed by a run of items of one layout, in one block.
#[derive(Debug)]
pub struct Aggregate<const N: usize> {
    fields: [FieldLayout; N],
    offsets: [usize; N],
    item: FieldLayout,
    count: usize,
    last_offset: usize,
    layout: FieldLayout,
    base: usize,
    bytes: Vec<u8>,
}

impl<const N: usize> View for Aggregate<N> {
    type V = AggregateView;

    open spec fn view(&self) -> AggregateView {
        AggregateView {
            fields: Seq::new(N as nat, |i: int| self.field_bytes(i)),
            count: self.spec_len() as nat,
            trailing: self.trailing_bytes(),
        }
    }
}

impl<const N: usize> Aggregate<N> {
    #[verifier::type_invariant]
    spec fn inv(&self) -> bool {
        &&& self.wf()
        &&& self.layout.wf()
        &&& self.layout.size() == aggregate_size(self.fields@, self.item, self.count as int)
        &&& self.layout.align() == aggregate_align(self.fields@, self.item)
        &&& self.last_offset == trailing_offset(self.fields@, self.item)
        &&& forall|i: int| 0 <= i < N ==> self.offsets@[i] == field_offset(self.fields@, i)
    }

    /// The layouts of the fixed fields, in order.
    pub closed spec fn field_layouts(&self) -> Seq<FieldLayout> {
        self.fields@
    }

    /// The layout of one trailing item.
    pub closed spec fn item_layout(&self) -> FieldLayout {
        self.item
    }

    /// The number of trailing items.
    pub closed spec fn spec_len(&self) -> usize {
        self.count
    }

    /// The address of the block.
    pub closed spec fn spec_base(&self) -> usize {
        self.base
    }

    /// All bytes of the block, padding included.
    pub closed spec fn block(&self) -> Seq<u8> {
        self.bytes@
    }

    /// The bytes of field `i`: those of the block from the field's offset
    /// on, as many as the field's size.
    pub open spec fn field_bytes(&self, i: int) -> Seq<u8> {
        self.block().subrange(
            field_offset(self.field_layouts(), i),
            field_offset(self.field_layouts(), i) + self.field_layouts()[i].size(),
        )
    }

    /// The bytes of the trailing items: those of the block from the
    /// trailing offset on, as many as the items take.
    pub open spec fn trailing_bytes(&self) -> Seq<u8> {
        self.block().subrange(
            trailing_offset(self.field_layouts(), self.item_layout()),
            trailing_offset(self.field_layouts(), self.item_layout()) + self.spec_len()
                * self.item_layout().size(),
        )
    }

    /// Well-formedness: the layouts are valid, the aggregate fits, and the
    /// block has the aggregate's size and lies at an address that is a
    /// multiple of the aggregate's alignment. Every aggregate that
    /// executable code holds is well formed.
    pub open spec fn wf(&self) -> bool {
        &&& self.field_layouts().len() == N
        &&& all_wf(self.field_layouts())
        &&& self.item_layout().wf()
        &&& fits(self.field_layouts(), self.item_layout(), self.spec_len() as int)
        &&& self.block().len() == aggregate_size(
            self.field_layouts(),
            self.item_layout(),
            self.spec_len() as int,
        )
        &&& self.spec_base() != 0
        &&& self.spec_base() as int % aggregate_align(self.field_layouts(), self.item_layout()) == 0
        &&& self.spec_base() + self.block().len() <= usize::MAX
    }

    /// The aggregate was built from these parts: it is well formed, its
    /// fields have the layouts `fields` and hold `values`, and its `count`
    /// trailing items have the layout `item` and hold `content`.
    pub open spec fn built_from(
        &self,
        fields: Seq<FieldLayout>,
        values: Seq<Seq<u8>>,
        item: FieldLayout,
        count: nat,
        content: Seq<u8>,
    ) -> bool {
        &&& self.wf()
        &&& self.field_layouts() == fields
        &&& self.item_layout() == item
        &&& self@ == (AggregateView { fields: values, count, trailing: content })
    }

    /// Puts together an aggregate from a block whose layout was computed
    /// by `calc_offsets` for these fields and items.
    pub(crate) fn from_parts(
        fields: [FieldLayout; N],
        offsets: [usize; N],
        item: FieldLayout,
        count: usize,
        last_offset: usize,
        layout: FieldLayout,
        base: usize,
        bytes: Vec<u8>,
    ) -> (r: Self)
        requires
            all_wf(fields@),
            item.wf(),
            fits(fields@, item, count as int),
            block_at(base, layout),
            layout.size() == aggregate_size(fields@, item, count as int),
            layout.align() == aggregate_align(fields@, item),
            last_offset == trailing_offset(fields@, item),
            forall|i: int| 0 <= i < N ==> offsets@[i] == field_offset(fields@, i),
            bytes@.len() == layout.size(),
        ensures
            r.wf(),
            r.field_layouts() == fields@,
            r.item_layout() == item,
            r.spec_len() == count,
            r.spec_base() == base,
            r.block() == bytes@,
    {
        Aggregate { fields, offsets, item, count, last_offset, layout, base, bytes }
    }

    /// Builds an aggregate and returns the pointer of type `R` to it: the
    /// fixed fields are `normal_fields` and the trailing items are those
    /// of `unsized_field`.
    ///
    /// Where the aggregate would be larger than `isize::MAX` bytes, the
    /// error is returned and nothing is allocated.
    pub fn init_unsized_checked<R, D>(
        normal_fields: [FieldValue; N],
        unsized_field: &D,
    ) -> (r: Result<R, LayoutError>) where R: SmartPointer<Self>, D: AsSlice + ?Sized
        ensures
            r is Ok <==> fits(
                layouts(normal_fields@),
                unsized_field.spec_item(),
                unsized_field.spec_count() as int,
            ),
            r matches Ok(p) ==> p.pointee().built_from(
                layouts(normal_fields@),
                contents(normal_fields@),
                unsized_field.spec_item(),
                unsized_field.spec_count(),
                unsized_field.spec_content(),
            ),
    {
        match allocate::<R, D, N>(normal_fields, unsized_field) {
            Ok(built) => Ok(R::cast(built)),
            Err(e) => Err(e),
        }
    }

    /// Builds an aggregate that is known to fit, and returns the pointer of
    /// type `R` to it: the fixed fields are `normal_fields` and the
    /// trailing items are those of `unsized_field`.
    pub fn init_unsized<R, D>(
        normal_fields: [FieldValue; N],
        unsized_field: &D,
    ) -> (r: R) where R: SmartPointer<Self>, D: AsSlice + ?Sized
        requires
            fits(
                layouts(normal_fields@),
                unsized_field.spec_item(),
                unsized_field.spec_count() as int,
            ),
        ensures
            r.pointee().built_from(
                layouts(normal_fields@),
                contents(normal_fields@),
                unsized_field.spec_item(),
                unsized_field.spec_count(),
                unsized_field.spec_content(),
            ),
    {
        match allocate::<R, D, N>(normal_fields, unsized_field) {
            Ok(built) => R::cast(built),
            Err(_) => vstd::pervasive::unreached(),
        }
    }

    /// The number of trailing items.
    #[verifier::when_used_as_spec(spec_len)]
    pub fn len(&self) -> (r: usize)
        ensures
            r == self.spec_len(),
            r == self@.count,
            self.wf(),
    {
        proof {
            use_type_invariant(self);
        }
        self.count
    }

    /// The size of the aggregate in bytes, padding included.
    pub fn size(&self) -> (r: usize)
        ensures
            r == aggregate_size(self.field_layouts(), self.item_layout(), self.spec_len() as int),
            r == self.block().len(),
            self.wf(),
    {
        proof {
            use_type_invariant(self);
        }
        self.layout.size()
    }

    /// The alignment of the aggregate.
    pub fn align(&self) -> (r: usize)
        ensures
            r == aggregate_align(self.field_layouts(), self.item_layout()),
            self.wf(),
    {
        proof {
            use_type_invariant(self);
        }
        self.layout.align()
    }

    /// The address of the block.
    #[verifier::when_used_as_spec(spec_base)]
    pub fn base(&self) -> (r: usize)
        ensures
            r == self.spec_base(),
            self.wf(),
    {
        proof {
            use_type_invariant(self);
        }
        self.base
    }

    /// The layout of field `i`.
    pub fn field_layout(&self, i: usize) -> (r: FieldLayout)
        requires
            i < N,
        ensures
            r == self.field_layouts()[i as int],
            self.wf(),
    {
        proof {
            use_type_invariant(self);
        }
        self.fields[i]
    }

    /// The layout of one trailing item.
    pub fn item(&self) -> (r: FieldLayout)
        ensures
            r == self.item_layout(),
            self.wf(),
    {
        proof {
            use_type_invariant(self);
        }
        self.item
    }

    /// The offset of field `i` in the block.
    pub fn offset(&self, i: usize) -> (r: usize)
        requires
            i < N,
        ensures
            r == field_offset(self.field_layouts(), i as int),
            self.wf(),
    {
        proof {
            use_type_invariant(self);
        }
        self.offsets[i]
    }

    /// The offset of the trailing items in the block.
    pub fn trailing_offset(&self) -> (r: usize)
        ensures
            r == trailing_offset(self.field_layouts(), self.item_layout()),
            self.wf(),
    {
        proof {
            use_type_invariant(self);
        }
        self.last_offset
    }

    /// The bytes of field `i`.
    pub fn field(&self, i: usize) -> (r: &[u8])
        requires
            i < N,
        ensures
            r@ == self@.fields[i as int],
            r@ == self.field_bytes(i as int),
            self.wf(),
    {
        proof {
            use_type_invariant(self);
            lemma_trailing_offset(self.fields@, self.item);
            lemma_aggregate_size(self.fields@, self.item, self.count as int);
            lemma_field_offset(self.fields@, i as int);
            lemma_fields_prefix(self.fields@, i as int, i as int);
        }
        let start = self.offsets[i];
        let size = self.fields[i].size();
        slice_subrange(self.bytes.as_slice(), start, start + size)
    }

    /// The bytes of the trailing items.
    pub fn trailing(&self) -> (r: &[u8])
        ensures
            r@ == self@.trailing,
            r@ == self.trailing_bytes(),
            self.wf(),
    {
        proof {
            use_type_invariant(self);
            lemma_aggregate_size(self.fields@, self.item, self.count as int);
        }
        let start = self.last_offset;
        let size = self.item.size();
        proof {
            assert(self.count * size >= 0) by (nonlinear_arith)
                requires
                    self.count >= 0,
                    size >= 0,
            ;
        }
        let end = start + self.count * size;
        slice_subrange(self.bytes.as_slice(), start, end)
    }

    /// All bytes of the block, padding included.
    pub fn as_bytes(&self) -> (r: &[u8])
        ensures
            r@ == self.block(),
            self.wf(),
    {
        proof {
            use_type_invariant(self);
        }
        self.bytes.as_slice()
    }
}

/// The three ways of owning an aggregate agree on what it holds: built from
/// the same fields and the same trailing items, the aggregate behind a
/// `Box`, the one behind an `Rc` and the one behind an `Arc` have the same
/// bytes in each field and in the trailing items.
pub proof fn lemma_pointers_agree<const N: usize>(
    unique: Box<Aggregate<N>>,
    shared: std::rc::Rc<Aggregate<N>>,
    synced: std::sync::Arc<Aggregate<N>>,
    fields: Seq<FieldLayout>,
    values: Seq<Seq<u8>>,
    item: FieldLayout,
    count: nat,
    content: Seq<u8>,
)
    requires
        unique.pointee().built_from(fields, values, item, count, content),
        shared.pointee().built_from(fields, values, item, count, content),
        synced.pointee().built_from(fields, values, item, count, content),
    ensures
        unique.pointee()@ == shared.pointee()@,
        shared.pointee()@ == synced.pointee()@,
        forall|i: int|
            0 <= i < N ==> {
                &&& #[trigger] unique.pointee().field_bytes(i) == values[i]
                &&& shared.pointee().field_bytes(i) == values[i]
                &&& synced.pointee().field_bytes(i) == values[i]
            },
        unique.pointee().trailing_bytes() == content,
        shared.pointee().trailing_bytes() == content,
        synced.pointee().trailing_bytes() == content,
{
}

} // verus!

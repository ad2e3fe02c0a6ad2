//! The rules by which a constructor is derived for a struct: which structs
//! qualify, and how the constructor's parameters are named. Identifiers
//! are given by their bytes.

use vstd::prelude::*;
use vstd::slice::slice_to_vec;

verus! {

/// Why no constructor can be derived.
#[derive(Clone, Copy, Debug, PartialEq, Eq, Structural)]
pub enum DeriveError {
    /// The item is not marked `repr(C)`.
    NotReprC,
    /// The item is an enum.
    Enum,
    /// The item is a union.
    Union,
    /// The struct has no braces or parentheses, and so no field.
    UnitStruct,
    /// The struct has no field that could be the dynamically sized one.
    NoFields,
}

/// What the compiler is to say for each error.
pub open spec fn message_text(e: DeriveError) -> Seq<char> {
    match e {
        DeriveError::Enum => "`Dstify` cannot be derived for `enums`s"@,
        DeriveError::Union => "`Dstify` cannot be derived for `union`s"@,
        DeriveError::UnitStruct => "`Dstify` cannot be derived for `unit structs`s"@,
        DeriveError::NotReprC | DeriveError::NoFields =>
            "`Dstify` can only be derived for `#[repr(C)]` `struct`s with dynamically-sized last field"@,
    }
}

impl DeriveError {
    /// What the compiler is to say for this error.
    pub fn message(&self) -> (r: &'static str)
        ensures
            r@ == message_text(*self),
    {
        match self {
            DeriveError::Enum => "`Dstify` cannot be derived for `enums`s",
            DeriveError::Union => "`Dstify` cannot be derived for `union`s",
            DeriveError::UnitStruct => "`Dstify` cannot be derived for `unit structs`s",
            DeriveError::NotReprC | DeriveError::NoFields =>
                "`Dstify` can only be derived for `#[repr(C)]` `struct`s with dynamically-sized last field",
        }
    }
}

/// An attribute of the item: the name at its head and, in order, the names
/// found between its parentheses. A name that is not a plain identifier is
/// empty.
pub struct Attribute {
    pub path: Vec<u8>,
    pub nested: Vec<Vec<u8>>,
}

/// The fields of a struct.
pub enum Fields {
    /// Fields with names, in order.
    Named(Vec<Vec<u8>>),
    /// This many fields without names.
    Unnamed(usize),
    /// No list of fields at all.
    Unit,
}

/// What kind of item the derive is applied to.
pub enum Data {
    Struct(Fields),
    Enum,
    Union,
}

/// The names of the constructor's parameters: one for each fixed field, in
/// order, and one for the dynamically sized field.
pub struct Parameters {
    pub normal_fields: Vec<Vec<u8>>,
    pub dst_field: Vec<u8>,
}

/// What a [`Parameters`] value holds.
pub struct ParametersView {
    pub normal_fields: Seq<Seq<u8>>,
    pub dst_field: Seq<u8>,
}

impl View for Parameters {
    type V = ParametersView;

    open spec fn view(&self) -> ParametersView {
        ParametersView {
            normal_fields: names(self.normal_fields@),
            dst_field: self.dst_field@,
        }
    }
}

/// The contents of the byte strings, in order.
pub open spec fn names(list: Seq<Vec<u8>>) -> Seq<Seq<u8>> {
    Seq::new(list.len(), |i: int| list[i]@)
}

/// `repr`.
pub open spec fn repr() -> Seq<u8> {
    seq!['r' as u8, 'e' as u8, 'p' as u8, 'r' as u8]
}

/// `C`.
pub open spec fn c() -> Seq<u8> {
    seq!['C' as u8]
}

/// `offsets`, the name that the constructor itself uses for its cursor.
pub open spec fn offsets() -> Seq<u8> {
    seq!['o' as u8, 'f' as u8, 'f' as u8, 's' as u8, 'e' as u8, 't' as u8, 's' as u8]
}

/// `name` starts with `prefix`.
pub open spec fn has_prefix(name: Seq<u8>, prefix: Seq<u8>) -> bool {
    &&& prefix.len() <= name.len()
    &&& name.subrange(0, prefix.len() as int) == prefix
}

/// The name of the parameter for the fixed field `name`: the field's own
/// name, with `_` behind it where it starts with `offsets`.
pub open spec fn parameter_name(name: Seq<u8>) -> Seq<u8> {
    if has_prefix(name, offsets()) {
        name.push('_' as u8)
    } else {
        name
    }
}

/// The digits of `n` in base ten.
pub open spec fn decimal(n: nat) -> Seq<u8>
    decreases n,
{
    if n < 10 {
        seq![('0' as u8 + n) as u8]
    } else {
        decimal(n / 10).push(('0' as u8 + n % 10) as u8)
    }
}

/// The name of the parameter for the field at `index` of a struct whose
/// fields have no names: `f` and the index.
pub open spec fn positional_name(index: nat) -> Seq<u8> {
    seq!['f' as u8] + decimal(index)
}

/// The attribute is `repr` with `C` among its arguments.
pub open spec fn is_repr_c(attr: Attribute) -> bool {
    &&& attr.path@ == repr()
    &&& exists|j: int| 0 <= j < attr.nested@.len() && #[trigger] attr.nested@[j]@ == c()
}

/// One of the attributes is `repr` with `C` among its arguments.
pub open spec fn has_repr_c(attrs: Seq<Attribute>) -> bool {
    exists|i: int| 0 <= i < attrs.len() && is_repr_c(#[trigger] attrs[i])
}

/// The parameters for a struct whose fields have the names `fields`: the
/// last field is the dynamically sized one and keeps its name, each field
/// before it gets its parameter name. A struct without fields has none.
pub open spec fn named_parameters(fields: Seq<Seq<u8>>) -> Result<ParametersView, DeriveError> {
    if fields.len() == 0 {
        Err(DeriveError::NoFields)
    } else {
        Ok(
            ParametersView {
                normal_fields: Seq::new(
                    (fields.len() - 1) as nat,
                    |i: int| parameter_name(fields[i]),
                ),
                dst_field: fields.last(),
            },
        )
    }
}

/// The parameters for a struct with `count` fields without names: the last
/// field is the dynamically sized one, and each field is named by its
/// place. A struct without fields has none.
pub open spec fn unnamed_parameters(count: nat) -> Result<ParametersView, DeriveError> {
    if count == 0 {
        Err(DeriveError::NoFields)
    } else {
        Ok(
            ParametersView {
                normal_fields: Seq::new((count - 1) as nat, |i: int| positional_name(i as nat)),
                dst_field: positional_name((count - 1) as nat),
            },
        )
    }
}

/// The parameters of the constructor derived for an item with these
/// attributes, or the reason why there is none: the item must be marked
/// `repr(C)`, it must be a struct, and the struct must have a field.
pub open spec fn derived(attrs: Seq<Attribute>, data: Data) -> Result<
    ParametersView,
    DeriveError,
> {
    if !has_repr_c(attrs) {
        Err(DeriveError::NotReprC)
    } else {
        match data {
            Data::Enum => Err(DeriveError::Enum),
            Data::Union => Err(DeriveError::Union),
            Data::Struct(Fields::Unit) => Err(DeriveError::UnitStruct),
            Data::Struct(Fields::Named(fields)) => named_parameters(names(fields@)),
            Data::Struct(Fields::Unnamed(count)) => unnamed_parameters(count as nat),
        }
    }
}

/// The result holds what `expected` says it should.
pub open spec fn agrees(
    r: Result<Parameters, DeriveError>,
    expected: Result<ParametersView, DeriveError>,
) -> bool {
    match r {
        Ok(p) => expected == Ok::<ParametersView, DeriveError>(p@),
        Err(e) => expected == Err::<ParametersView, DeriveError>(e),
    }
}

/// Tells whether two byte strings are the same.
fn same_bytes(a: &[u8], b: &[u8]) -> (r: bool)
    ensures
        r == (a@ == b@),
{
    if a.len() != b.len() {
        return false;
    }
    let mut i: usize = 0;
    while i < a.len()
        invariant
            i <= a@.len(),
            a@.len() == b@.len(),
            forall|j: int| 0 <= j < i ==> a@[j] == b@[j],
        decreases a@.len() - i,
    {
        if a[i] != b[i] {
            return false;
        }
        i += 1;
    }
    assert(a@ =~= b@);
    true
}

/// Tells whether `name` starts with `prefix`.
fn starts_with(name: &[u8], prefix: &[u8]) -> (r: bool)
    ensures
        r == has_prefix(name@, prefix@),
{
    if prefix.len() > name.len() {
        return false;
    }
    same_bytes(vstd::slice::slice_subrange(name, 0, prefix.len()), prefix)
}

/// The bytes of `offsets`.
fn offsets_bytes() -> (r: [u8; 7])
    ensures
        r@ == offsets(),
{
    let r = ['o' as u8, 'f' as u8, 'f' as u8, 's' as u8, 'e' as u8, 't' as u8, 's' as u8];
    r
}

/// The bytes of `repr`.
fn repr_bytes() -> (r: [u8; 4])
    ensures
        r@ == repr(),
{
    let r = ['r' as u8, 'e' as u8, 'p' as u8, 'r' as u8];
    r
}

/// The bytes of `C`.
fn c_bytes() -> (r: [u8; 1])
    ensures
        r@ == c(),
{
    let r = ['C' as u8];
    r
}

/// Tells whether the attribute is `repr` with `C` among its arguments.
fn attribute_is_repr_c(attr: &Attribute) -> (r: bool)
    ensures
        r == is_repr_c(*attr),
{
    let repr = repr_bytes();
    if !same_bytes(attr.path.as_slice(), repr.as_slice()) {
        return false;
    }
    let c = c_bytes();
    let mut j: usize = 0;
    while j < attr.nested.len()
        invariant
            j <= attr.nested@.len(),
            attr.path@ == self::repr(),
            c@ == self::c(),
            forall|k: int| 0 <= k < j ==> (#[trigger] attr.nested@[k])@ != self::c(),
        decreases attr.nested@.len() - j,
    {
        if same_bytes(attr.nested[j].as_slice(), c.as_slice()) {
            return true;
        }
        j += 1;
    }
    false
}

/// Checks that the item is marked `repr(C)`: that one of its attributes is
/// `repr` and has `C` among its arguments.
pub fn ensure_repr_c(attrs: &Vec<Attribute>) -> (r: Result<(), DeriveError>)
    ensures
        r is Ok <==> has_repr_c(attrs@),
        r matches Err(e) ==> e == DeriveError::NotReprC,
{
    let mut i: usize = 0;
    while i < attrs.len()
        invariant
            i <= attrs@.len(),
            forall|k: int| 0 <= k < i ==> !is_repr_c(#[trigger] attrs@[k]),
        decreases attrs@.len() - i,
    {
        if attribute_is_repr_c(&attrs[i]) {
            return Ok(());
        }
        i += 1;
    }
    Err(DeriveError::NotReprC)
}

/// The name of the parameter for the fixed field `name`.
pub fn parameter(name: &[u8]) -> (r: Vec<u8>)
    ensures
        r@ == parameter_name(name@),
{
    let prefix = offsets_bytes();
    let mut r = slice_to_vec(name);
    if starts_with(name, prefix.as_slice()) {
        r.push('_' as u8);
    }
    r
}

/// Appends the digits of `n` in base ten.
fn push_decimal(n: usize, out: &mut Vec<u8>)
    ensures
        final(out)@ == old(out)@ + decimal(n as nat),
    decreases n,
{
    if n >= 10 {
        push_decimal(n / 10, out);
    }
    let digit = (n % 10) as u8;
    out.push('0' as u8 + digit);
}

/// The name of the parameter for the field at `index` of a struct whose
/// fields have no names.
pub fn positional(index: usize) -> (r: Vec<u8>)
    ensures
        r@ == positional_name(index as nat),
{
    let mut r: Vec<u8> = Vec::new();
    r.push('f' as u8);
    push_decimal(index, &mut r);
    r
}

/// The parameters for a struct whose fields have names.
pub fn derive_named(fields: &Vec<Vec<u8>>) -> (r: Result<Parameters, DeriveError>)
    ensures
        agrees(r, named_parameters(names(fields@))),
{
    let len = fields.len();
    if len == 0 {
        return Err(DeriveError::NoFields);
    }
    let mut normal_fields: Vec<Vec<u8>> = Vec::new();
    let mut i: usize = 0;
    while i < len - 1
        invariant
            len == fields@.len(),
            len > 0,
            i <= len - 1,
            normal_fields@.len() == i,
            forall|k: int| 0 <= k < i ==> (#[trigger] normal_fields@[k])@ == parameter_name(fields@[k]@),
        decreases len - i,
    {
        normal_fields.push(parameter(fields[i].as_slice()));
        i += 1;
    }
    let dst_field = slice_to_vec(fields[len - 1].as_slice());
    let p = Parameters { normal_fields, dst_field };
    proof {
        let expected = named_parameters(names(fields@))->Ok_0;
        assert(p@.normal_fields =~= expected.normal_fields);
    }
    Ok(p)
}

/// The parameters for a struct with `count` fields without names.
pub fn derive_unnamed(count: usize) -> (r: Result<Parameters, DeriveError>)
    ensures
        agrees(r, unnamed_parameters(count as nat)),
{
    if count == 0 {
        return Err(DeriveError::NoFields);
    }
    let mut normal_fields: Vec<Vec<u8>> = Vec::new();
    let mut i: usize = 0;
    while i < count - 1
        invariant
            count > 0,
            i <= count - 1,
            normal_fields@.len() == i,
            forall|k: int| 0 <= k < i ==> (#[trigger] normal_fields@[k])@ == positional_name(k as nat),
        decreases count - i,
    {
        normal_fields.push(positional(i));
        i += 1;
    }
    let dst_field = positional(count - 1);
    let p = Parameters { normal_fields, dst_field };
    proof {
        let expected = unnamed_parameters(count as nat)->Ok_0;
        assert(p@.normal_fields =~= expected.normal_fields);
    }
    Ok(p)
}

/// The parameters of the constructor derived for an item with the
/// attributes `attrs` and the contents `data`, or the reason why none can
/// be derived.
pub fn parameters(attrs: &Vec<Attribute>, data: &Data) -> (r: Result<Parameters, DeriveError>)
    ensures
        agrees(r, derived(attrs@, *data)),
{
    match ensure_repr_c(attrs) {
        Err(e) => {
            return Err(e);
        },
        Ok(()) => {},
    }
    match data {
        Data::Enum => Err(DeriveError::Enum),
        Data::Union => Err(DeriveError::Union),
        Data::Struct(Fields::Unit) => Err(DeriveError::UnitStruct),
        Data::Struct(Fields::Named(fields)) => derive_named(fields),
        Data::Struct(Fields::Unnamed(count)) => derive_unnamed(*count),
    }
}

} // verus!

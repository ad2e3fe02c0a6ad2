use dstify::compare::{compare_bytes, Order};
use dstify::layout::{FieldLayout, LayoutError};
use dstify::private::{allocate, AsSlice, FieldValue, NulTerminated, RawSlice};
use dstify::Aggregate;
use std::path::Path;
use std::rc::Rc;
use std::sync::Arc;

/// The value `bytes` of a field of type `T`.
fn value<T>(bytes: &[u8]) -> FieldValue<'_> {
    FieldValue::new(FieldLayout::new::<T>(), bytes).unwrap()
}

/// Builds the aggregate behind each kind of pointer, checks that the three
/// hold the same, and returns the one behind the `Box`.
fn make<D: AsSlice + ?Sized, const N: usize>(fields: [FieldValue; N], dst: &D) -> Box<Aggregate<N>> {
    let synced: Arc<Aggregate<N>> = Aggregate::init_unsized(fields, dst);
    let shared: Rc<Aggregate<N>> = Aggregate::init_unsized(fields, dst);
    let unique: Box<Aggregate<N>> = Aggregate::init_unsized(fields, dst);
    assert_eq!(*unique, *shared);
    assert_eq!(*shared, *synced);
    for i in 0..N {
        assert_eq!(unique.field(i), fields[i].bytes());
        assert_eq!(shared.field(i), fields[i].bytes());
        assert_eq!(synced.field(i), fields[i].bytes());
    }
    assert_eq!(unique.trailing(), dst.as_slice());
    assert_eq!(shared.trailing(), dst.as_slice());
    assert_eq!(synced.trailing(), dst.as_slice());
    assert_eq!(unique.len(), dst.count());
    assert_eq!(shared.len(), dst.count());
    assert_eq!(synced.len(), dst.count());
    assert_eq!(unique.size(), shared.size());
    assert_eq!(shared.size(), synced.size());
    assert_eq!(unique.as_bytes().len(), unique.size());
    unique
}

fn bytes_of_u16s(items: &[u16]) -> Vec<u8> {
    items.iter().flat_map(|x| x.to_ne_bytes()).collect()
}

fn bytes_of_u128s(items: &[u128]) -> Vec<u8> {
    items.iter().flat_map(|x| x.to_ne_bytes()).collect()
}

#[test]
fn a_byte_a_word_and_three_halfwords() {
    let word = 0x0102_0304u32.to_ne_bytes();
    let items = bytes_of_u16s(&[10, 20, 30]);
    let dst = RawSlice::new(FieldLayout::new::<u16>(), 3, &items).unwrap();
    let built = make([value::<u8>(&[0xaa]), value::<u32>(&word)], &dst);
    assert_eq!(built.size(), 16);
    assert_eq!(built.align(), 4);
    assert_eq!(built.offset(0), 0);
    assert_eq!(built.offset(1), 4);
    assert_eq!(built.trailing_offset(), 8);
    assert_eq!(built.len(), 3);
    assert_eq!(built.field_layout(0), FieldLayout::new::<u8>());
    assert_eq!(built.field_layout(1), FieldLayout::new::<u32>());
    assert_eq!(built.item(), FieldLayout::new::<u16>());
    assert_eq!(built.field(0), &[0xaa]);
    assert_eq!(built.field(1), &word);
    assert_eq!(built.trailing(), &items[..]);
    let block = built.as_bytes();
    assert_eq!(block.len(), 16);
    assert_eq!(block[0], 0xaa);
    assert_eq!(&block[4..8], &word);
    assert_eq!(&block[8..14], &items[..]);
    assert_ne!(built.base(), 0);
    assert_eq!(built.base() % built.align(), 0);
}

#[test]
fn only_a_slice_of_bytes() {
    let none: [u8; 0] = [];
    for dst in [&none[..], &[1], &[1, 2], &[1, 2, 3]] {
        let built = make([], dst);
        assert_eq!(built.size(), dst.len());
        assert_eq!(built.align(), 1);
        assert_eq!(built.trailing_offset(), 0);
        assert_eq!(built.as_bytes(), dst);
    }
}

#[test]
fn equal_when_they_hold_the_same() {
    let none: [u8; 0] = [];
    let a = make([value::<u8>(&[0])], &none[..]);
    let b = make([value::<u8>(&[0])], &none[..]);
    assert_eq!(a, b);
    let c = make([value::<u8>(&[0])], &[0u8][..]);
    assert_ne!(a, c);
    let d = make([value::<u8>(&[1])], &none[..]);
    assert_ne!(a, d);
    let shared: Rc<Aggregate<1>> = Aggregate::init_unsized([value::<u8>(&[0])], &none[..]);
    assert_eq!(*a, *shared);
}

#[test]
fn ordered_by_fields_then_by_items() {
    let c: Box<Aggregate<1>> = Aggregate::init_unsized([value::<u8>(&[1])], &[1u8][..]);
    let d: Box<Aggregate<1>> = Aggregate::init_unsized([value::<u8>(&[2])], &[1u8, 2][..]);
    assert!(c < d);
    assert!(d > c);
    assert_eq!(c.compare(&d), Order::Less);
    assert_eq!(d.compare(&c), Order::Greater);
    assert_eq!(c.compare(&c), Order::Equal);
    let e: Box<Aggregate<1>> = Aggregate::init_unsized([value::<u8>(&[1])], &[1u8, 0][..]);
    assert!(c < e);
    let f: Box<Aggregate<1>> = Aggregate::init_unsized([value::<u8>(&[1])], &[0u8, 9][..]);
    assert!(f < c);
    let g: Box<Aggregate<1>> = Aggregate::init_unsized([value::<u8>(&[0])], &[9u8, 9][..]);
    assert!(g < f);
}

#[test]
fn byte_strings_in_order() {
    assert_eq!(compare_bytes(&[], &[]), Order::Equal);
    assert_eq!(compare_bytes(&[], &[0]), Order::Less);
    assert_eq!(compare_bytes(&[0], &[]), Order::Greater);
    assert_eq!(compare_bytes(&[1, 2], &[1, 2]), Order::Equal);
    assert_eq!(compare_bytes(&[1, 2], &[1, 3]), Order::Less);
    assert_eq!(compare_bytes(&[2], &[1, 3]), Order::Greater);
    assert_eq!(compare_bytes(&[1, 2], &[1, 2, 0]), Order::Less);
    assert_eq!(compare_bytes(&[1, 2, 0], &[1, 2]), Order::Greater);
}

#[test]
fn items_of_size_zero_are_counted() {
    let unit = FieldLayout::new::<()>();
    let two = 2u16.to_ne_bytes();
    let three = 3u32.to_ne_bytes();
    let fields = [value::<u8>(&[1]), value::<u16>(&two), value::<u32>(&three)];
    let mut built = Vec::new();
    for count in 0..3 {
        let dst = RawSlice::new(unit, count, &[]).unwrap();
        let one = make(fields, &dst);
        assert_eq!(one.len(), count);
        assert_eq!(one.size(), 8);
        assert_eq!(one.trailing_offset(), 8);
        assert_eq!(one.trailing(), &[] as &[u8]);
        built.push(one);
    }
    assert_ne!(built[0], built[1]);
    assert!(built[0] < built[1]);
    assert!(built[1] < built[2]);
}

#[test]
fn nothing_but_items_of_size_zero() {
    let unit = FieldLayout::new::<()>();
    for count in [0, 1, 2, usize::MAX] {
        let dst = RawSlice::new(unit, count, &[]).unwrap();
        let none = make([], &dst);
        assert_eq!((none.size(), none.align(), none.len()), (0, 1, count));
        let one = make([value::<()>(&[])], &dst);
        assert_eq!((one.size(), one.offset(0), one.len()), (0, 0, count));
        let two = make([value::<()>(&[]), value::<()>(&[])], &dst);
        assert_eq!((two.size(), two.offset(1), two.len()), (0, 0, count));
    }
}

#[test]
fn fields_of_size_zero_before_wide_items() {
    let wide = FieldLayout::new::<u128>();
    let fields = [value::<()>(&[]); 4];
    for items in [&[][..], &[1u128][..], &[1u128, 2][..]] {
        let bytes = bytes_of_u128s(items);
        let dst = RawSlice::new(wide, items.len(), &bytes).unwrap();
        let built = make(fields, &dst);
        assert_eq!(built.size(), 16 * items.len());
        assert_eq!(built.align(), wide.align());
        assert_eq!(built.trailing_offset(), 0);
        assert_eq!(built.trailing(), &bytes[..]);
    }
}

#[test]
fn text_is_its_bytes() {
    let empty = make([], "");
    assert_eq!(empty.size(), 0);
    assert_eq!(empty.len(), 0);
    let hello = make([], "Hello, World!");
    assert_eq!(hello.len(), 13);
    assert_eq!(hello.size(), 13);
    assert_eq!(hello.trailing(), b"Hello, World!");
    let accents = make([value::<u16>(&[7, 7])], "h\u{e9}");
    assert_eq!(accents.len(), 3);
    assert_eq!(accents.trailing(), &[b'h', 0xc3, 0xa9]);
    assert_eq!(accents.size(), 6);
}

#[test]
fn a_path_is_its_bytes() {
    let yes = Path::new("/usr/bin/true").as_os_str().as_encoded_bytes();
    let no = Path::new("/usr/bin/false").as_os_str().as_encoded_bytes();
    let b = make([], yes);
    let a = make([], no);
    assert_ne!(a, b);
    assert_eq!(a.trailing(), b"/usr/bin/false");
    assert_eq!(b.len(), 13);
    let empty = make([], Path::new("").as_os_str().as_encoded_bytes());
    assert_eq!(empty.len(), 0);
    let again = make([], Path::new("/usr/bin/false").as_os_str().as_encoded_bytes());
    assert_eq!(a, again);
}

#[test]
fn two_references_before_the_bytes() {
    let pointer = FieldLayout::new::<&u8>();
    let wide = FieldLayout::new::<&Path>();
    assert_eq!(wide.size(), 2 * pointer.size());
    let byte = 0x1000usize.to_ne_bytes();
    let mut path = 0x2000usize.to_ne_bytes().to_vec();
    path.extend("Cargo.toml".len().to_ne_bytes());
    let fields = [FieldValue::new(pointer, &byte).unwrap(), FieldValue::new(wide, &path).unwrap()];
    let none: [u8; 0] = [];
    for dst in [&none[..], &[1], &[1, 2], &[1, 2, 3]] {
        let built = make(fields, dst);
        assert_eq!(built.offset(1), pointer.size());
        assert_eq!(built.trailing_offset(), 3 * pointer.size());
        assert_eq!(built.size() % pointer.align(), 0);
        assert!(built.size() >= 3 * pointer.size() + dst.len());
        assert!(built.size() < 3 * pointer.size() + dst.len() + pointer.align());
    }
}

#[test]
fn a_terminated_string_keeps_its_terminator() {
    let empty = NulTerminated::from_bytes_with_nul(b"\0").unwrap();
    let built = make([], &empty);
    assert_eq!(built.len(), 1);
    assert_eq!(built.trailing(), b"\0");
    let hello = NulTerminated::from_bytes_with_nul(b"Hello, World!\0").unwrap();
    assert_eq!(hello.count(), 14);
    assert_eq!(hello.as_slice(), b"Hello, World!\0");
    assert_eq!(hello.item_layout(), FieldLayout::new::<u8>());
    let built = make([], &hello);
    assert_eq!(built.len(), 14);
    assert_eq!(built.size(), 14);
    assert_eq!(built.trailing(), b"Hello, World!\0");
}

#[test]
fn a_terminated_string_has_one_zero_byte_at_its_end() {
    assert!(NulTerminated::from_bytes_with_nul(b"").is_none());
    assert!(NulTerminated::from_bytes_with_nul(b"abc").is_none());
    assert!(NulTerminated::from_bytes_with_nul(b"a\0c\0").is_none());
    assert!(NulTerminated::from_bytes_with_nul(b"\0\0").is_none());
    assert!(NulTerminated::from_bytes_with_nul(b"\0a").is_none());
    assert!(NulTerminated::from_bytes_with_nul(b"abc\0").is_some());
    assert!(NulTerminated::from_bytes_with_nul(b"\0").is_some());
}

#[test]
fn a_field_value_has_the_size_of_its_layout() {
    let word = FieldLayout::new::<u32>();
    assert!(FieldValue::new(word, &[1, 2, 3, 4]).is_some());
    assert!(FieldValue::new(word, &[1, 2, 3]).is_none());
    assert!(FieldValue::new(word, &[1, 2, 3, 4, 5]).is_none());
    assert!(FieldValue::new(word, &[]).is_none());
    assert!(FieldValue::new(FieldLayout::new::<()>(), &[]).is_some());
    assert!(FieldValue::new(FieldLayout::new::<()>(), &[0]).is_none());
    let v = FieldValue::new(word, &[1, 2, 3, 4]).unwrap();
    assert_eq!(v.layout(), word);
    assert_eq!(v.bytes(), &[1, 2, 3, 4]);
}

#[test]
fn a_raw_slice_has_the_bytes_of_its_items() {
    let half = FieldLayout::new::<u16>();
    assert!(RawSlice::new(half, 2, &[1, 2, 3, 4]).is_some());
    assert!(RawSlice::new(half, 2, &[1, 2, 3]).is_none());
    assert!(RawSlice::new(half, 1, &[1, 2, 3, 4]).is_none());
    assert!(RawSlice::new(half, 0, &[]).is_some());
    assert!(RawSlice::new(half, 0, &[1]).is_none());
    assert!(RawSlice::new(half, usize::MAX, &[1, 2]).is_none());
    assert!(RawSlice::new(FieldLayout::new::<()>(), usize::MAX, &[]).is_some());
    let s = RawSlice::new(half, 2, &[1, 2, 3, 4]).unwrap();
    assert_eq!(s.item_layout(), half);
    assert_eq!(s.count(), 2);
    assert_eq!(s.as_slice(), &[1, 2, 3, 4]);
}

#[test]
fn a_slice_of_bytes_is_its_own_view() {
    let bytes: &[u8] = &[5, 6, 7];
    assert_eq!(bytes.item_layout(), FieldLayout::from_size_align(1, 1).unwrap());
    assert_eq!(AsSlice::count(bytes), 3);
    assert_eq!(bytes.as_slice(), &[5, 6, 7]);
    assert_eq!("abc".item_layout(), FieldLayout::from_size_align(1, 1).unwrap());
    assert_eq!(AsSlice::count("abc"), 3);
    assert_eq!(AsSlice::as_slice("abc"), b"abc");
}

#[test]
fn a_reference_among_the_fields() {
    let pointer = FieldLayout::new::<&u8>();
    let address = 0x1000usize.to_ne_bytes();
    let none: [u8; 0] = [];
    for dst in [&none[..], &[1], &[1, 2]] {
        let built = make([FieldValue::new(pointer, &address).unwrap()], dst);
        assert_eq!(built.field(0), &address);
        assert_eq!(built.trailing_offset(), pointer.size());
        assert_eq!(built.size() % pointer.align(), 0);
        assert_eq!(built.trailing(), dst);
    }
}

#[test]
fn too_large_is_an_error_for_every_pointer() {
    let wide = FieldLayout::from_size_align(0, 1usize << (usize::BITS - 2)).unwrap();
    let fields = [value::<u8>(&[0]), FieldValue::new(wide, &[]).unwrap()];
    let dst: &[u8] = &[0, 1, 2, 3, 4];
    let unique: Result<Box<Aggregate<2>>, _> = Aggregate::init_unsized_checked(fields, dst);
    assert_eq!(unique.err(), Some(LayoutError));
    let shared: Result<Rc<Aggregate<2>>, _> = Aggregate::init_unsized_checked(fields, dst);
    assert_eq!(shared.err(), Some(LayoutError));
    let synced: Result<Arc<Aggregate<2>>, _> = Aggregate::init_unsized_checked(fields, dst);
    assert_eq!(synced.err(), Some(LayoutError));
    let built = allocate::<Box<Aggregate<2>>, [u8], 2>(fields, dst);
    assert_eq!(built.err(), Some(LayoutError));
}

#[test]
fn what_fits_is_built_by_the_checked_constructor() {
    let byte = [value::<u8>(&[0])];
    let dst: &[u8] = &[0, 1, 2, 3, 4];
    let unique: Result<Box<Aggregate<1>>, _> = Aggregate::init_unsized_checked(byte, dst);
    let unique = unique.unwrap();
    assert_eq!(unique.size(), 6);
    assert_eq!(unique.as_bytes(), &[0, 0, 1, 2, 3, 4]);
    let shared: Result<Rc<Aggregate<1>>, _> = Aggregate::init_unsized_checked(byte, dst);
    assert_eq!(*shared.unwrap(), *unique);
    let synced: Result<Arc<Aggregate<1>>, _> = Aggregate::init_unsized_checked(byte, dst);
    assert_eq!(*synced.unwrap(), *unique);
    let built = allocate::<Rc<Aggregate<1>>, [u8], 1>(byte, dst).unwrap();
    assert_eq!(built, *unique);
}

#[test]
fn shared_pointers_count_their_owners() {
    let shared: Rc<Aggregate<1>> = Aggregate::init_unsized([value::<u8>(&[7])], "shared");
    assert_eq!(Rc::strong_count(&shared), 1);
    let second = Rc::clone(&shared);
    assert_eq!(Rc::strong_count(&shared), 2);
    assert_eq!(second.trailing(), b"shared");
    drop(shared);
    assert_eq!(Rc::strong_count(&second), 1);
    assert_eq!(second.field(0), &[7]);
}

fn crosses_threads<T: Send + Sync>(_: &T) {}

#[test]
fn a_synced_pointer_counts_its_owners() {
    let synced: Arc<Aggregate<1>> = Aggregate::init_unsized([value::<u8>(&[7])], "synced");
    crosses_threads(&synced);
    assert_eq!(Arc::strong_count(&synced), 1);
    let clones: Vec<_> = (0..100).map(|_| Arc::clone(&synced)).collect();
    assert_eq!(Arc::strong_count(&synced), 101);
    for clone in clones {
        assert_eq!(clone.trailing(), b"synced");
        drop(clone);
    }
    assert_eq!(Arc::strong_count(&synced), 1);
    assert_eq!(synced.field(0), &[7]);
    assert_eq!(synced.trailing(), b"synced");
}

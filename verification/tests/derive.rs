use dstify::derive::{
    derive_named, derive_unnamed, ensure_repr_c, parameter, parameters, positional, Attribute,
    Data, DeriveError, Fields, Parameters,
};

fn attribute(path: &str, nested: &[&str]) -> Attribute {
    Attribute {
        path: path.as_bytes().to_vec(),
        nested: nested.iter().map(|n| n.as_bytes().to_vec()).collect(),
    }
}

fn named(fields: &[&str]) -> Vec<Vec<u8>> {
    fields.iter().map(|n| n.as_bytes().to_vec()).collect()
}

fn text(p: &Parameters) -> (Vec<String>, String) {
    (
        p.normal_fields.iter().map(|n| String::from_utf8(n.clone()).unwrap()).collect(),
        String::from_utf8(p.dst_field.clone()).unwrap(),
    )
}

#[test]
fn repr_c_is_asked_for() {
    assert_eq!(ensure_repr_c(&vec![attribute("repr", &["C"])]), Ok(()));
    assert_eq!(
        ensure_repr_c(&vec![attribute("derive", &["Debug"]), attribute("repr", &["C"])]),
        Ok(())
    );
    assert_eq!(ensure_repr_c(&vec![attribute("repr", &["packed", "C"])]), Ok(()));
    assert_eq!(
        ensure_repr_c(&vec![attribute("repr", &["packed"]), attribute("repr", &["C"])]),
        Ok(())
    );
    assert_eq!(ensure_repr_c(&vec![]), Err(DeriveError::NotReprC));
    assert_eq!(ensure_repr_c(&vec![attribute("repr", &[])]), Err(DeriveError::NotReprC));
    assert_eq!(ensure_repr_c(&vec![attribute("repr", &["c"])]), Err(DeriveError::NotReprC));
    assert_eq!(ensure_repr_c(&vec![attribute("repr", &["CC"])]), Err(DeriveError::NotReprC));
    assert_eq!(ensure_repr_c(&vec![attribute("repr", &["u8"])]), Err(DeriveError::NotReprC));
    assert_eq!(ensure_repr_c(&vec![attribute("derive", &["C"])]), Err(DeriveError::NotReprC));
    assert_eq!(ensure_repr_c(&vec![attribute("reprs", &["C"])]), Err(DeriveError::NotReprC));
    assert_eq!(ensure_repr_c(&vec![attribute("", &["C"])]), Err(DeriveError::NotReprC));
}

#[test]
fn fields_named_like_the_cursor_get_an_underscore() {
    assert_eq!(parameter(b"file"), b"file");
    assert_eq!(parameter(b"a1"), b"a1");
    assert_eq!(parameter(b"offsets"), b"offsets_");
    assert_eq!(parameter(b"offsets_"), b"offsets__");
    assert_eq!(parameter(b"offsets2"), b"offsets2_");
    assert_eq!(parameter(b"offset"), b"offset");
    assert_eq!(parameter(b"my_offsets"), b"my_offsets");
    assert_eq!(parameter(b"Offsets"), b"Offsets");
    assert_eq!(parameter(b""), b"");
}

#[test]
fn fields_without_names_are_named_by_their_place() {
    assert_eq!(positional(0), b"f0");
    assert_eq!(positional(1), b"f1");
    assert_eq!(positional(9), b"f9");
    assert_eq!(positional(10), b"f10");
    assert_eq!(positional(11), b"f11");
    assert_eq!(positional(99), b"f99");
    assert_eq!(positional(100), b"f100");
    assert_eq!(positional(4096), b"f4096");
    assert_eq!(positional(usize::MAX), format!("f{}", usize::MAX).as_bytes());
    for i in 0..2000 {
        assert_eq!(positional(i), format!("f{}", i).as_bytes());
    }
}

#[test]
fn the_last_named_field_is_the_dynamically_sized_one() {
    let p = derive_named(&named(&["file", "path"])).ok().unwrap();
    assert_eq!(text(&p), (vec!["file".to_string()], "path".to_string()));
    let p = derive_named(&named(&["dst"])).ok().unwrap();
    assert_eq!(text(&p), (vec![], "dst".to_string()));
    let p = derive_named(&named(&["a1", "offsets", "a3", "offsets_of", "offsets"])).ok().unwrap();
    assert_eq!(
        text(&p),
        (
            vec![
                "a1".to_string(),
                "offsets_".to_string(),
                "a3".to_string(),
                "offsets_of_".to_string()
            ],
            "offsets".to_string()
        )
    );
    assert_eq!(derive_named(&named(&[])).err(), Some(DeriveError::NoFields));
}

#[test]
fn the_last_unnamed_field_is_the_dynamically_sized_one() {
    let p = derive_unnamed(1).ok().unwrap();
    assert_eq!(text(&p), (vec![], "f0".to_string()));
    let p = derive_unnamed(2).ok().unwrap();
    assert_eq!(text(&p), (vec!["f0".to_string()], "f1".to_string()));
    let p = derive_unnamed(12).ok().unwrap();
    let (normal, dst) = text(&p);
    assert_eq!(normal.len(), 11);
    assert_eq!(normal[0], "f0");
    assert_eq!(normal[10], "f10");
    assert_eq!(dst, "f11");
    assert_eq!(derive_unnamed(0).err(), Some(DeriveError::NoFields));
}

#[test]
fn only_structs_marked_repr_c_with_a_field_qualify() {
    let repr_c = vec![attribute("derive", &["Debug"]), attribute("repr", &["C"])];
    let p = parameters(&repr_c, &Data::Struct(Fields::Named(named(&["a1", "dst"])))).ok().unwrap();
    assert_eq!(text(&p), (vec!["a1".to_string()], "dst".to_string()));
    let p = parameters(&repr_c, &Data::Struct(Fields::Unnamed(3))).ok().unwrap();
    assert_eq!(text(&p), (vec!["f0".to_string(), "f1".to_string()], "f2".to_string()));
    assert_eq!(parameters(&repr_c, &Data::Enum).err(), Some(DeriveError::Enum));
    assert_eq!(parameters(&repr_c, &Data::Union).err(), Some(DeriveError::Union));
    assert_eq!(
        parameters(&repr_c, &Data::Struct(Fields::Unit)).err(),
        Some(DeriveError::UnitStruct)
    );
    assert_eq!(
        parameters(&repr_c, &Data::Struct(Fields::Named(vec![]))).err(),
        Some(DeriveError::NoFields)
    );
    assert_eq!(
        parameters(&repr_c, &Data::Struct(Fields::Unnamed(0))).err(),
        Some(DeriveError::NoFields)
    );
}

#[test]
fn repr_c_is_looked_at_first() {
    let plain = vec![attribute("derive", &["Debug"])];
    assert_eq!(
        parameters(&plain, &Data::Struct(Fields::Named(named(&["dst"])))).err(),
        Some(DeriveError::NotReprC)
    );
    assert_eq!(parameters(&plain, &Data::Enum).err(), Some(DeriveError::NotReprC));
    assert_eq!(parameters(&plain, &Data::Union).err(), Some(DeriveError::NotReprC));
    assert_eq!(parameters(&plain, &Data::Struct(Fields::Unit)).err(), Some(DeriveError::NotReprC));
    assert_eq!(parameters(&vec![], &Data::Struct(Fields::Unnamed(0))).err(), Some(DeriveError::NotReprC));
}

#[test]
fn each_error_has_its_message() {
    assert_eq!(DeriveError::Enum.message(), "`Dstify` cannot be derived for `enums`s");
    assert_eq!(DeriveError::Union.message(), "`Dstify` cannot be derived for `union`s");
    assert_eq!(
        DeriveError::UnitStruct.message(),
        "`Dstify` cannot be derived for `unit structs`s"
    );
    let general = "`Dstify` can only be derived for `#[repr(C)]` `struct`s with dynamically-sized last field";
    assert_eq!(DeriveError::NotReprC.message(), general);
    assert_eq!(DeriveError::NoFields.message(), general);
}

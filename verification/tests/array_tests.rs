use matlas::array::{
    check_fill, check_shape, check_slice, element_count, linear_index, same_dimensions,
    sparse_pointers, sparse_stored_count, validate_dimensions, validate_sparse, ArrayHeader,
};
use matlas::chars::{decode_utf16, encode_utf16};
use matlas::{Class, Complex, ErrorKind, Matlab, Numeric};

fn header<'a>(class: Class, dimensions: &'a [usize], numel: usize) -> ArrayHeader<'a> {
    ArrayHeader {
        class_id: class.to_raw(),
        class_name: b"double",
        dimensions,
        numel,
        element_size: 8,
        is_numeric: true,
        is_logical: false,
        is_char: false,
        is_cell: false,
        is_struct: false,
        is_object: false,
        is_sparse: false,
        is_complex: false,
        is_empty: numel == 0,
    }
}

#[test]
fn class_identifiers_round_trip() {
    for raw in 0..=18 {
        let class = Class::from_raw(raw).unwrap();
        assert_eq!(class.to_raw(), raw);
    }
    assert_eq!(Class::from_raw(6), Some(Class::Double));
    assert_eq!(Class::from_raw(18), Some(Class::Object));
    assert_eq!(Class::from_raw(19), None);
    assert_eq!(Class::from_raw(-1), None);
}

#[test]
fn numeric_element_layouts() {
    assert_eq!(i8::class(), Class::Int8);
    assert_eq!(u64::size(), 8);
    assert!(!u16::complex());
    assert_eq!(<Complex<i32>>::class(), Class::Int32);
    assert!(<Complex<i32>>::complex());
    assert_eq!(<Complex<i32>>::size(), 8);
    assert_eq!(<Complex<u8>>::name(), "matlas::array::Complex<u8>");
}

#[test]
fn dimensions_and_element_counts() {
    assert!(validate_dimensions(&[2, 3]).is_ok());
    assert_eq!(
        validate_dimensions(&[5]).unwrap_err().detail,
        "MATLAB arrays require at least two dimensions"
    );
    assert_eq!(element_count(&[2, 3, 4]).unwrap(), 24);
    assert_eq!(element_count(&[]).unwrap(), 1);
    assert_eq!(element_count(&[0, 7]).unwrap(), 0);
    let e = element_count(&[usize::MAX, 2, 0]).unwrap_err();
    assert_eq!(e.kind, ErrorKind::InvalidInput);
    assert_eq!(e.detail, "element count overflow");
    assert_eq!(check_shape(&[2, 2], 4, "create logical").unwrap(), 4);
    assert_eq!(
        check_shape(&[2, 2], 3, "create logical").unwrap_err().detail,
        "shape/value length mismatch"
    );
    assert!(same_dimensions(&[1, 2], &[1, 2]));
    assert!(!same_dimensions(&[1, 2], &[2, 1]));
}

#[test]
fn sparse_components_are_validated() {
    // 3-by-2: column 0 rows {0, 2}, column 1 row {1}.
    assert!(validate_sparse(3, 2, &[0, 2, 3], &[0, 2, 1], 3).is_ok());
    assert!(validate_sparse(3, 0, &[0], &[], 0).is_ok());
    let detail = |r: matlas::Result<()>| r.unwrap_err().detail;
    assert_eq!(detail(validate_sparse(3, usize::MAX, &[0], &[], 0)), "column count overflow");
    assert_eq!(detail(validate_sparse(3, 2, &[0, 2], &[0, 2], 2)), "invalid column offsets");
    assert_eq!(detail(validate_sparse(3, 2, &[1, 2, 3], &[0, 2, 1], 3)), "invalid column offsets");
    assert_eq!(
        detail(validate_sparse(3, 2, &[0, 2, 3], &[0, 2], 3)),
        "index/value length mismatch"
    );
    assert_eq!(
        detail(validate_sparse(3, 2, &[0, 2, 2], &[0, 2, 1], 3)),
        "index/value length mismatch"
    );
    assert_eq!(
        detail(validate_sparse(3, 2, &[0, 4, 3], &[0, 2, 1], 3)),
        "column offsets are not monotonic"
    );
    assert_eq!(
        detail(validate_sparse(3, 2, &[0, 2, 3], &[2, 0, 1], 3)),
        "row indices must be sorted, unique, and in bounds"
    );
    assert_eq!(
        detail(validate_sparse(3, 2, &[0, 2, 3], &[1, 1, 0], 3)),
        "row indices must be sorted, unique, and in bounds"
    );
    assert_eq!(
        detail(validate_sparse(3, 2, &[0, 2, 3], &[0, 2, 3], 3)),
        "row indices must be sorted, unique, and in bounds"
    );
}

#[test]
fn column_major_linear_index() {
    assert_eq!(linear_index(&[2, 3], &[1, 2]).unwrap(), 5);
    assert_eq!(linear_index(&[2, 3, 4], &[1, 2, 3]).unwrap(), 1 + 2 * 2 + 3 * 6);
    assert_eq!(linear_index(&[4, 4], &[0, 0]).unwrap(), 0);
    let e = linear_index(&[2, 3], &[1]).unwrap_err();
    assert_eq!(e.kind, ErrorKind::InvalidInput);
    assert_eq!(e.detail, "expected 2 subscripts, got 1");
    let e = linear_index(&[2, 3], &[2, 0]).unwrap_err();
    assert_eq!(e.kind, ErrorKind::Bounds);
    assert_eq!(e.detail, "index 2 is outside length 2");
    let e = linear_index(&[usize::MAX, 3], &[0, 0]).unwrap_err();
    assert_eq!(e.detail, "stride overflow");
    let e = linear_index(&[usize::MAX, usize::MAX], &[1, 1]).unwrap_err();
    assert_eq!(e.detail, "index overflow");
    let dims = [2usize, 3];
    assert_eq!(header(Class::Double, &dims, 6).linear_index(&[0, 1]).unwrap(), 2);
}

#[test]
fn sparse_structure_and_slices() {
    assert_eq!(sparse_stored_count(&[0, 2, 3], 3).unwrap(), 3);
    assert_eq!(sparse_stored_count(&[], 0).unwrap(), 0);
    assert_eq!(
        sparse_stored_count(&[0, 2, 3], 2).unwrap_err().detail,
        "invalid compressed-column structure"
    );
    assert!(sparse_stored_count(&[0, 3, 2], 5).is_err());
    assert_eq!(sparse_pointers(2, 3, false, false).unwrap(), 3);
    assert!(sparse_pointers(2, 0, false, true).is_ok());
    assert_eq!(
        sparse_pointers(2, 1, false, true).unwrap_err().detail,
        "null sparse index pointer"
    );
    assert_eq!(
        sparse_pointers(usize::MAX, 1, false, false).unwrap_err().kind,
        ErrorKind::Bounds
    );
    assert!(check_slice(0, 8, true, "data").is_ok());
    assert_eq!(check_slice(3, 8, true, "data").unwrap_err().detail, "null data pointer");
    assert_eq!(
        check_slice(usize::MAX, 8, false, "data").unwrap_err().detail,
        "buffer is too large for a Rust slice"
    );
    assert!(check_slice(3, 8, false, "data").is_ok());
}

#[test]
fn header_checks() {
    let dims = [1usize, 3];
    let h = header(Class::Double, &dims, 3);
    assert_eq!(h.class(), Some(Class::Double));
    assert!(h.check_scalar().is_ok());
    assert!(h.check_numeric::<u64>("numeric data").is_err());
    let e = h.check_numeric::<i8>("numeric data").unwrap_err();
    assert_eq!(e.kind, ErrorKind::Type);
    assert_eq!(e.detail, "expected i8, got \"double\"");
    let mut ints = header(Class::Int32, &dims, 3);
    ints.element_size = 4;
    assert!(ints.check_numeric::<i32>("numeric data").is_ok());
    assert!(ints.check_numeric::<Complex<i32>>("numeric data").is_err());
    ints.is_complex = true;
    ints.element_size = 8;
    assert!(ints.check_numeric::<Complex<i32>>("numeric data").is_ok());
    assert!(ints.check_sparse_numeric::<Complex<i32>>("sparse").is_err());
    assert_eq!(h.check_index("cell", 0, false).unwrap_err().detail, "expected cell, got \"double\"");
    assert_eq!(h.check_index("cell", 3, true).unwrap_err().detail, "index 3 is outside length 3");
    assert!(h.check_index("cell", 2, true).is_ok());
    assert_eq!(h.check_char("character data").unwrap_err().kind, ErrorKind::Type);
    assert!(h.check_dense_logical("logical data").is_err());
    assert!(h.check_numeric_class("make real").is_ok());
    assert!(h.check_set_property(0).is_err());
    assert_eq!(h.check_get_property(0).unwrap_err().operation, "get property");
    let empty = header(Class::Double, &dims, 0);
    assert!(empty.check_scalar().is_err());
    assert!(h.check_reshape(&[3, 1]).is_ok());
    assert_eq!(
        h.check_reshape(&[2, 2]).unwrap_err().detail,
        "new shape must preserve the element count"
    );
    let mut sparse = h;
    sparse.is_sparse = true;
    assert_eq!(
        sparse.check_reshape(&[3, 1]).unwrap_err().detail,
        "sparse arrays cannot be reshaped without rebuilding CSC storage"
    );
    assert!(sparse.check_reshape(&[1, 3]).is_ok());
    let mut s = h;
    s.is_struct = true;
    assert!(s.check_field(0, 1, 2).is_ok());
    assert_eq!(s.check_field(0, 2, 2).unwrap_err().detail, "index 2 is outside length 2");
}

#[test]
fn fill_checks() {
    assert!(check_fill(3, 3, 1).is_ok());
    assert_eq!(check_fill(3, 2, 1).unwrap_err().detail, "expected 3 elements, got 2");
    assert_eq!(check_fill(usize::MAX, usize::MAX, 8).unwrap_err().kind, ErrorKind::Bounds);
    assert!(check_fill(0, 0, 8).is_ok());
}

#[test]
fn constructor_checks() {
    let cx = Matlab::new();
    assert_eq!(cx.numeric::<i16>(&[2, 2], &[1, 2, 3, 4]).unwrap(), 4);
    assert!(cx.numeric::<i16>(&[2, 2], &[1, 2, 3]).is_err());
    assert!(cx.numeric::<i16>(&[4], &[1, 2, 3, 4]).is_err());
    assert_eq!(cx.scalar(7u32).unwrap(), 1);
    assert_eq!(cx.logical(&[1, 2], &[true, false]).unwrap(), 2);
    assert_eq!(cx.char_array(&[1, 3], &[65, 66, 67]).unwrap(), 3);
    assert_eq!(cx.cell(&[2, 0]).unwrap(), 0);
    assert_eq!(cx.structure(&[1, 1], &["a", "b"]).unwrap(), 2);
    assert_eq!(cx.uninit_numeric::<u8>(&[3, 3]).unwrap(), 9);
    assert_eq!(cx.sparse(3, 2, &[0, 2, 3], &[0, 2, 1], 3, Class::Double).unwrap(), 3);
    assert_eq!(cx.sparse(3, 2, &[0, 0, 0], &[], 0, Class::Double).unwrap(), 1);
    assert_eq!(
        cx.sparse(3, 2, &[0, 2, 3], &[0, 2, 1], 3, Class::Int32).unwrap_err().operation,
        "create sparse array"
    );
    assert_eq!(cx.logical_sparse(3, 2, &[0, 2, 3], &[0, 2, 1], &[true, true, true]).unwrap(), 3);
    assert!(cx.logical_sparse(3, 2, &[0, 2, 3], &[0, 3, 1], &[true, true, true]).is_err());
}

#[test]
fn strings_and_character_matrices() {
    let cx = Matlab::new();
    let data = cx.string("hé😀").unwrap();
    assert_eq!(data.dimensions, vec![1, 4]);
    assert_eq!(data.units, vec![0x68, 0xE9, 0xD83D, 0xDE00]);
    assert_eq!(decode_utf16(&data.units).unwrap(), "hé😀");
    let empty = cx.string("").unwrap();
    assert_eq!(empty.dimensions, vec![1, 0]);
    let m = cx.char_matrix(&["ab", "c", "def"]).unwrap();
    assert_eq!(m.dimensions, vec![3, 3]);
    let expected: Vec<u16> = "acdb e  f".encode_utf16().collect();
    assert_eq!(m.units, expected);
    let none = cx.char_matrix(&[]).unwrap();
    assert_eq!(none.dimensions, vec![0, 0]);
    assert!(none.units.is_empty());
    let blank = cx.char_matrix(&["", ""]).unwrap();
    assert_eq!(blank.dimensions, vec![2, 0]);
}

#[test]
fn utf16_round_trip_and_errors() {
    for text in ["", "plain", "ÄÖÜ", "𝄞 clef", "日本語😀"] {
        let units = encode_utf16(text);
        let std_units: Vec<u16> = text.encode_utf16().collect();
        assert_eq!(units, std_units);
        assert_eq!(decode_utf16(&units).unwrap(), text);
    }
    let e = decode_utf16(&[0xD800]).unwrap_err();
    assert_eq!(e.kind, ErrorKind::InvalidInput);
    assert_eq!(e.operation, "decode UTF-16");
    assert_eq!(e.detail, "invalid utf-16: lone surrogate found");
    assert_eq!(e.detail, String::from_utf16(&[0xD800]).unwrap_err().to_string());
    assert!(decode_utf16(&[0xDC00, 0xD800]).is_err());
    assert_eq!(decode_utf16(&[0x41, 0xDBFF, 0xDFFF]).unwrap(), "A\u{10FFFF}");
    assert!(decode_utf16(&[0xD83D]).is_err());
    assert!(decode_utf16(&[0xD83D, 0x41]).is_err());
}

#[test]
fn every_subscript_maps_inside_the_array() {
    let dims = [2usize, 3, 4];
    let mut seen = vec![false; 24];
    for i in 0..2usize {
        for j in 0..3usize {
            for k in 0..4usize {
                let index = linear_index(&dims, &[i, j, k]).unwrap();
                assert!(index < 24);
                assert!(!seen[index]);
                seen[index] = true;
            }
        }
    }
    assert!(seen.iter().all(|&hit| hit));
}

#[test]
fn element_names_are_the_type_paths() {
    assert_eq!(<i8 as Numeric>::name(), "i8");
    assert_eq!(<u64 as Numeric>::name(), "u64");
    assert_eq!(<Complex<i16> as Numeric>::name(), "matlas::array::Complex<i16>");
    assert_eq!(<Complex<u32> as Numeric>::name(), "matlas::array::Complex<u32>");
}

#[test]
fn removing_a_field_needs_a_structure_and_a_field() {
    let dims = [1usize, 1];
    let mut h = header(Class::Struct, &dims, 1);
    h.is_struct = true;
    h.is_numeric = false;
    assert!(h.check_remove_field(0, 2).is_ok());
    let e = h.check_remove_field(2, 2).unwrap_err();
    assert_eq!(e.kind, ErrorKind::Bounds);
    assert_eq!(e.operation, "remove field");
    assert_eq!(e.detail, "index 2 is outside length 2");
    let plain = header(Class::Double, &dims, 1);
    let e = plain.check_remove_field(0, 0).unwrap_err();
    assert_eq!(e.kind, ErrorKind::Type);
    assert_eq!(e.detail, "expected struct, got \"double\"");
}

//! Array classes, element types, and the shape rules that every array
//! constructor and accessor checks before it touches MATLAB memory.
use vstd::prelude::*;
use crate::error::{bounds_detail, type_detail, Error, ErrorKind, Result};
use crate::text::{decimal, push_decimal, push_str};
use crate::chars::{encode_utf16, utf16_decode, utf16_encode};

verus! {

/// MATLAB's stable matrix class identifiers.
#[derive(Debug, Copy, Clone, PartialEq, Eq, Structural)]
pub enum Class {
    /// Unknown or invalid class identifier.
    Unknown,
    /// Cell array.
    Cell,
    /// Structure array.
    Struct,
    /// Logical array.
    Logical,
    /// UTF-16 character array.
    Char,
    /// Reserved void class.
    Void,
    /// Double-precision floating-point array.
    Double,
    /// Single-precision floating-point array.
    Single,
    /// Signed 8-bit integer array.
    Int8,
    /// Unsigned 8-bit integer array.
    Uint8,
    /// Signed 16-bit integer array.
    Int16,
    /// Unsigned 16-bit integer array.
    Uint16,
    /// Signed 32-bit integer array.
    Int32,
    /// Unsigned 32-bit integer array.
    Uint32,
    /// Signed 64-bit integer array.
    Int64,
    /// Unsigned 64-bit integer array.
    Uint64,
    /// Function-handle array.
    Function,
    /// Opaque MATLAB value.
    Opaque,
    /// MATLAB object array.
    Object,
}

/// The native `mxClassID` of each class.
pub open spec fn class_id(c: Class) -> i32 {
    match c {
        Class::Unknown => 0,
        Class::Cell => 1,
        Class::Struct => 2,
        Class::Logical => 3,
        Class::Char => 4,
        Class::Void => 5,
        Class::Double => 6,
        Class::Single => 7,
        Class::Int8 => 8,
        Class::Uint8 => 9,
        Class::Int16 => 10,
        Class::Uint16 => 11,
        Class::Int32 => 12,
        Class::Uint32 => 13,
        Class::Int64 => 14,
        Class::Uint64 => 15,
        Class::Function => 16,
        Class::Opaque => 17,
        Class::Object => 18,
    }
}

impl Class {
    /// Convert a native `mxClassID` integer into a known class.
    pub fn from_raw(value: i32) -> (r: Option<Class>)
        ensures
            r is Some <==> 0 <= value <= 18,
            r matches Some(c) ==> class_id(c) == value,
    {
        match value {
            0 => Some(Class::Unknown),
            1 => Some(Class::Cell),
            2 => Some(Class::Struct),
            3 => Some(Class::Logical),
            4 => Some(Class::Char),
            5 => Some(Class::Void),
            6 => Some(Class::Double),
            7 => Some(Class::Single),
            8 => Some(Class::Int8),
            9 => Some(Class::Uint8),
            10 => Some(Class::Int16),
            11 => Some(Class::Uint16),
            12 => Some(Class::Int32),
            13 => Some(Class::Uint32),
            14 => Some(Class::Int64),
            15 => Some(Class::Uint64),
            16 => Some(Class::Function),
            17 => Some(Class::Opaque),
            18 => Some(Class::Object),
            _ => None,
        }
    }

    /// The native `mxClassID` of this class.
    pub fn to_raw(self) -> (r: i32)
        ensures
            r == class_id(self),
    {
        match self {
            Class::Unknown => 0,
            Class::Cell => 1,
            Class::Struct => 2,
            Class::Logical => 3,
            Class::Char => 4,
            Class::Void => 5,
            Class::Double => 6,
            Class::Single => 7,
            Class::Int8 => 8,
            Class::Uint8 => 9,
            Class::Int16 => 10,
            Class::Uint16 => 11,
            Class::Int32 => 12,
            Class::Uint32 => 13,
            Class::Int64 => 14,
            Class::Uint64 => 15,
            Class::Function => 16,
            Class::Opaque => 17,
            Class::Object => 18,
        }
    }
}

/// The identifiers are MATLAB's `mxClassID` values, class by class.
pub proof fn law_class_ids()
    ensures
        class_id(Class::Unknown) == 0,
        class_id(Class::Cell) == 1,
        class_id(Class::Struct) == 2,
        class_id(Class::Logical) == 3,
        class_id(Class::Char) == 4,
        class_id(Class::Void) == 5,
        class_id(Class::Double) == 6,
        class_id(Class::Single) == 7,
        class_id(Class::Int8) == 8,
        class_id(Class::Uint8) == 9,
        class_id(Class::Int16) == 10,
        class_id(Class::Uint16) == 11,
        class_id(Class::Int32) == 12,
        class_id(Class::Uint32) == 13,
        class_id(Class::Int64) == 14,
        class_id(Class::Uint64) == 15,
        class_id(Class::Function) == 16,
        class_id(Class::Opaque) == 17,
        class_id(Class::Object) == 18,
{
}

/// Converting a class to its identifier and back gives the class again.
pub proof fn law_class_round_trip(c: Class)
    ensures
        0 <= class_id(c) <= 18,
        forall|d: Class| class_id(d) == class_id(c) ==> d == c,
{
}

/// API-800 interleaved complex element layout.
#[derive(Debug, Copy, Clone, Default, PartialEq)]
pub struct Complex<T> {
    /// Real component.
    pub real: T,
    /// Imaginary component.
    pub imag: T,
}

/// Restricts [`Numeric`] to the element types listed in this module.
pub trait Sealed {

}

/// A Rust element with exactly the layout used by an API-800 numeric array.
pub trait Numeric: Sealed + Copy {
    /// MATLAB class corresponding to this Rust element type.
    spec fn spec_class() -> Class;

    /// Whether this element uses interleaved complex storage.
    spec fn spec_complex() -> bool;

    /// Storage size of one element in bytes.
    spec fn spec_size() -> nat;

    /// MATLAB class corresponding to this Rust element type.
    fn class() -> (c: Class)
        ensures
            c == Self::spec_class(),
    ;

    /// Whether this element uses interleaved complex storage.
    fn complex() -> (b: bool)
        ensures
            b == Self::spec_complex(),
    ;

    /// Name of this element type, used in error details.
    spec fn spec_name() -> Seq<char>;

    /// Name of this element type, used in error details.
    fn name() -> (r: &'static str)
        ensures
            r@ == Self::spec_name(),
    ;

    /// Storage size of one element in bytes.
    fn size() -> (n: usize)
        ensures
            n == Self::spec_size(),
            0 < n <= 16,
    ;
}

impl Sealed for i8 {

}

impl Numeric for i8 {
    open spec fn spec_name() -> Seq<char> {
        "i8"@
    }

    fn name() -> &'static str {
        "i8"
    }

    open spec fn spec_class() -> Class {
        Class::Int8
    }

    open spec fn spec_complex() -> bool {
        false
    }

    open spec fn spec_size() -> nat {
        1
    }

    fn class() -> Class {
        Class::Int8
    }

    fn complex() -> bool {
        false
    }

    fn size() -> usize {
        1
    }
}

impl Sealed for u8 {

}

impl Numeric for u8 {
    open spec fn spec_name() -> Seq<char> {
        "u8"@
    }

    fn name() -> &'static str {
        "u8"
    }

    open spec fn spec_class() -> Class {
        Class::Uint8
    }

    open spec fn spec_complex() -> bool {
        false
    }

    open spec fn spec_size() -> nat {
        1
    }

    fn class() -> Class {
        Class::Uint8
    }

    fn complex() -> bool {
        false
    }

    fn size() -> usize {
        1
    }
}

impl Sealed for i16 {

}

impl Numeric for i16 {
    open spec fn spec_name() -> Seq<char> {
        "i16"@
    }

    fn name() -> &'static str {
        "i16"
    }

    open spec fn spec_class() -> Class {
        Class::Int16
    }

    open spec fn spec_complex() -> bool {
        false
    }

    open spec fn spec_size() -> nat {
        2
    }

    fn class() -> Class {
        Class::Int16
    }

    fn complex() -> bool {
        false
    }

    fn size() -> usize {
        2
    }
}

impl Sealed for u16 {

}

impl Numeric for u16 {
    open spec fn spec_name() -> Seq<char> {
        "u16"@
    }

    fn name() -> &'static str {
        "u16"
    }

    open spec fn spec_class() -> Class {
        Class::Uint16
    }

    open spec fn spec_complex() -> bool {
        false
    }

    open spec fn spec_size() -> nat {
        2
    }

    fn class() -> Class {
        Class::Uint16
    }

    fn complex() -> bool {
        false
    }

    fn size() -> usize {
        2
    }
}

impl Sealed for i32 {

}

impl Numeric for i32 {
    open spec fn spec_name() -> Seq<char> {
        "i32"@
    }

    fn name() -> &'static str {
        "i32"
    }

    open spec fn spec_class() -> Class {
        Class::Int32
    }

    open spec fn spec_complex() -> bool {
        false
    }

    open spec fn spec_size() -> nat {
        4
    }

    fn class() -> Class {
        Class::Int32
    }

    fn complex() -> bool {
        false
    }

    fn size() -> usize {
        4
    }
}

impl Sealed for u32 {

}

impl Numeric for u32 {
    open spec fn spec_name() -> Seq<char> {
        "u32"@
    }

    fn name() -> &'static str {
        "u32"
    }

    open spec fn spec_class() -> Class {
        Class::Uint32
    }

    open spec fn spec_complex() -> bool {
        false
    }

    open spec fn spec_size() -> nat {
        4
    }

    fn class() -> Class {
        Class::Uint32
    }

    fn complex() -> bool {
        false
    }

    fn size() -> usize {
        4
    }
}

impl Sealed for i64 {

}

impl Numeric for i64 {
    open spec fn spec_name() -> Seq<char> {
        "i64"@
    }

    fn name() -> &'static str {
        "i64"
    }

    open spec fn spec_class() -> Class {
        Class::Int64
    }

    open spec fn spec_complex() -> bool {
        false
    }

    open spec fn spec_size() -> nat {
        8
    }

    fn class() -> Class {
        Class::Int64
    }

    fn complex() -> bool {
        false
    }

    fn size() -> usize {
        8
    }
}

impl Sealed for u64 {

}

impl Numeric for u64 {
    open spec fn spec_name() -> Seq<char> {
        "u64"@
    }

    fn name() -> &'static str {
        "u64"
    }

    open spec fn spec_class() -> Class {
        Class::Uint64
    }

    open spec fn spec_complex() -> bool {
        false
    }

    open spec fn spec_size() -> nat {
        8
    }

    fn class() -> Class {
        Class::Uint64
    }

    fn complex() -> bool {
        false
    }

    fn size() -> usize {
        8
    }
}

impl Sealed for Complex<i8> {

}

impl Numeric for Complex<i8> {
    open spec fn spec_name() -> Seq<char> {
        "matlas::array::Complex<i8>"@
    }

    fn name() -> &'static str {
        "matlas::array::Complex<i8>"
    }

    open spec fn spec_class() -> Class {
        Class::Int8
    }

    open spec fn spec_complex() -> bool {
        true
    }

    open spec fn spec_size() -> nat {
        2
    }

    fn class() -> Class {
        Class::Int8
    }

    fn complex() -> bool {
        true
    }

    fn size() -> usize {
        2
    }
}

impl Sealed for Complex<u8> {

}

impl Numeric for Complex<u8> {
    open spec fn spec_name() -> Seq<char> {
        "matlas::array::Complex<u8>"@
    }

    fn name() -> &'static str {
        "matlas::array::Complex<u8>"
    }

    open spec fn spec_class() -> Class {
        Class::Uint8
    }

    open spec fn spec_complex() -> bool {
        true
    }

    open spec fn spec_size() -> nat {
        2
    }

    fn class() -> Class {
        Class::Uint8
    }

    fn complex() -> bool {
        true
    }

    fn size() -> usize {
        2
    }
}

impl Sealed for Complex<i16> {

}

impl Numeric for Complex<i16> {
    open spec fn spec_name() -> Seq<char> {
        "matlas::array::Complex<i16>"@
    }

    fn name() -> &'static str {
        "matlas::array::Complex<i16>"
    }

    open spec fn spec_class() -> Class {
        Class::Int16
    }

    open spec fn spec_complex() -> bool {
        true
    }

    open spec fn spec_size() -> nat {
        4
    }

    fn class() -> Class {
        Class::Int16
    }

    fn complex() -> bool {
        true
    }

    fn size() -> usize {
        4
    }
}

impl Sealed for Complex<u16> {

}

impl Numeric for Complex<u16> {
    open spec fn spec_name() -> Seq<char> {
        "matlas::array::Complex<u16>"@
    }

    fn name() -> &'static str {
        "matlas::array::Complex<u16>"
    }

    open spec fn spec_class() -> Class {
        Class::Uint16
    }

    open spec fn spec_complex() -> bool {
        true
    }

    open spec fn spec_size() -> nat {
        4
    }

    fn class() -> Class {
        Class::Uint16
    }

    fn complex() -> bool {
        true
    }

    fn size() -> usize {
        4
    }
}

impl Sealed for Complex<i32> {

}

impl Numeric for Complex<i32> {
    open spec fn spec_name() -> Seq<char> {
        "matlas::array::Complex<i32>"@
    }

    fn name() -> &'static str {
        "matlas::array::Complex<i32>"
    }

    open spec fn spec_class() -> Class {
        Class::Int32
    }

    open spec fn spec_complex() -> bool {
        true
    }

    open spec fn spec_size() -> nat {
        8
    }

    fn class() -> Class {
        Class::Int32
    }

    fn complex() -> bool {
        true
    }

    fn size() -> usize {
        8
    }
}

impl Sealed for Complex<u32> {

}

impl Numeric for Complex<u32> {
    open spec fn spec_name() -> Seq<char> {
        "matlas::array::Complex<u32>"@
    }

    fn name() -> &'static str {
        "matlas::array::Complex<u32>"
    }

    open spec fn spec_class() -> Class {
        Class::Uint32
    }

    open spec fn spec_complex() -> bool {
        true
    }

    open spec fn spec_size() -> nat {
        8
    }

    fn class() -> Class {
        Class::Uint32
    }

    fn complex() -> bool {
        true
    }

    fn size() -> usize {
        8
    }
}

impl Sealed for Complex<i64> {

}

impl Numeric for Complex<i64> {
    open spec fn spec_name() -> Seq<char> {
        "matlas::array::Complex<i64>"@
    }

    fn name() -> &'static str {
        "matlas::array::Complex<i64>"
    }

    open spec fn spec_class() -> Class {
        Class::Int64
    }

    open spec fn spec_complex() -> bool {
        true
    }

    open spec fn spec_size() -> nat {
        16
    }

    fn class() -> Class {
        Class::Int64
    }

    fn complex() -> bool {
        true
    }

    fn size() -> usize {
        16
    }
}

impl Sealed for Complex<u64> {

}

impl Numeric for Complex<u64> {
    open spec fn spec_name() -> Seq<char> {
        "matlas::array::Complex<u64>"@
    }

    fn name() -> &'static str {
        "matlas::array::Complex<u64>"
    }

    open spec fn spec_class() -> Class {
        Class::Uint64
    }

    open spec fn spec_complex() -> bool {
        true
    }

    open spec fn spec_size() -> nat {
        16
    }

    fn class() -> Class {
        Class::Uint64
    }

    fn complex() -> bool {
        true
    }

    fn size() -> usize {
        16
    }
}

/// Each element type is stored as the MATLAB class of its Rust type: a
/// signed or unsigned integer of the same width, real for the plain type and
/// interleaved complex, at twice the size, for its `Complex`.
pub proof fn law_numeric_layouts()
    ensures
        <i8 as Numeric>::spec_class() == Class::Int8 && !<i8 as Numeric>::spec_complex() && <i8 as Numeric>::spec_size() == 1,
        <Complex<i8> as Numeric>::spec_class() == Class::Int8 && <Complex<i8> as Numeric>::spec_complex() && <Complex<i8> as Numeric>::spec_size() == 2,
        <u8 as Numeric>::spec_class() == Class::Uint8 && !<u8 as Numeric>::spec_complex() && <u8 as Numeric>::spec_size() == 1,
        <Complex<u8> as Numeric>::spec_class() == Class::Uint8 && <Complex<u8> as Numeric>::spec_complex() && <Complex<u8> as Numeric>::spec_size() == 2,
        <i16 as Numeric>::spec_class() == Class::Int16 && !<i16 as Numeric>::spec_complex() && <i16 as Numeric>::spec_size() == 2,
        <Complex<i16> as Numeric>::spec_class() == Class::Int16 && <Complex<i16> as Numeric>::spec_complex() && <Complex<i16> as Numeric>::spec_size() == 4,
        <u16 as Numeric>::spec_class() == Class::Uint16 && !<u16 as Numeric>::spec_complex() && <u16 as Numeric>::spec_size() == 2,
        <Complex<u16> as Numeric>::spec_class() == Class::Uint16 && <Complex<u16> as Numeric>::spec_complex() && <Complex<u16> as Numeric>::spec_size() == 4,
        <i32 as Numeric>::spec_class() == Class::Int32 && !<i32 as Numeric>::spec_complex() && <i32 as Numeric>::spec_size() == 4,
        <Complex<i32> as Numeric>::spec_class() == Class::Int32 && <Complex<i32> as Numeric>::spec_complex() && <Complex<i32> as Numeric>::spec_size() == 8,
        <u32 as Numeric>::spec_class() == Class::Uint32 && !<u32 as Numeric>::spec_complex() && <u32 as Numeric>::spec_size() == 4,
        <Complex<u32> as Numeric>::spec_class() == Class::Uint32 && <Complex<u32> as Numeric>::spec_complex() && <Complex<u32> as Numeric>::spec_size() == 8,
        <i64 as Numeric>::spec_class() == Class::Int64 && !<i64 as Numeric>::spec_complex() && <i64 as Numeric>::spec_size() == 8,
        <Complex<i64> as Numeric>::spec_class() == Class::Int64 && <Complex<i64> as Numeric>::spec_complex() && <Complex<i64> as Numeric>::spec_size() == 16,
        <u64 as Numeric>::spec_class() == Class::Uint64 && !<u64 as Numeric>::spec_complex() && <u64 as Numeric>::spec_size() == 8,
        <Complex<u64> as Numeric>::spec_class() == Class::Uint64 && <Complex<u64> as Numeric>::spec_complex() && <Complex<u64> as Numeric>::spec_size() == 16,
{
}

/// How one element is stored in a numeric array: its class, whether it is
/// interleaved complex, its size in bytes, and the type name that errors
/// report. Element types outside [`Numeric`] describe themselves this way.
#[derive(Clone, Copy)]
pub struct Layout {
    /// MATLAB class.
    pub class: Class,
    /// Interleaved complex storage.
    pub complex: bool,
    /// Storage size of one element in bytes.
    pub size: usize,
    /// Type name used in error details.
    pub name: &'static str,
}

/// The layout of a [`Numeric`] element type.
pub open spec fn spec_layout_of<T: Numeric>(l: Layout) -> bool {
    &&& l.class == T::spec_class()
    &&& l.complex == T::spec_complex()
    &&& l.size == T::spec_size()
    &&& l.name@ == T::spec_name()
}

/// The layout of a [`Numeric`] element type.
pub fn layout_of<T: Numeric>() -> (l: Layout)
    ensures
        spec_layout_of::<T>(l),
        0 < l.size <= 16,
{
    Layout { class: T::class(), complex: T::complex(), size: T::size(), name: T::name() }
}

/// MATLAB arrays have at least two dimensions.
pub fn validate_dimensions(dimensions: &[usize]) -> (r: Result<()>)
    ensures
        r matches Err(e) ==> e.is_plain(),
        r is Ok <==> dimensions@.len() >= 2,
        r matches Err(e) ==> {
            &&& e.kind == ErrorKind::InvalidInput
            &&& e.operation == "dimensions"
            &&& e.detail@ == "MATLAB arrays require at least two dimensions"@
        },
{
    if dimensions.len() < 2 {
        return Err(
            Error::new(
                ErrorKind::InvalidInput,
                "dimensions",
                "MATLAB arrays require at least two dimensions",
            ),
        );
    }
    Ok(())
}

/// Product of the first `k` entries of `d`.
pub open spec fn prefix_product(d: Seq<usize>, k: int) -> int
    decreases k,
{
    if k <= 0 {
        1
    } else {
        prefix_product(d, k - 1) * d[k - 1]
    }
}

/// Every running product of the dimensions fits in `usize`; this is when
/// the element count can be computed with checked multiplication.
pub open spec fn count_fits(d: Seq<usize>) -> bool {
    forall|k: int| 0 <= k <= d.len() ==> #[trigger] prefix_product(d, k) <= usize::MAX
}

proof fn lemma_prefix_product_nonneg(d: Seq<usize>, k: int)
    ensures
        prefix_product(d, k) >= 0,
    decreases k,
{
    if k > 0 {
        lemma_prefix_product_nonneg(d, k - 1);
        vstd::arithmetic::mul::lemma_mul_nonnegative(prefix_product(d, k - 1), d[k - 1] as int);
    }
}

/// Multiply all dimensions, failing on the first running product that
/// overflows `usize`.
pub fn element_count(dimensions: &[usize]) -> (r: Result<usize>)
    ensures
        r matches Err(e) ==> e.is_plain(),
        r is Ok <==> count_fits(dimensions@),
        r matches Ok(n) ==> n == prefix_product(dimensions@, dimensions@.len() as int),
        r matches Err(e) ==> {
            &&& e.kind == ErrorKind::InvalidInput
            &&& e.operation == "dimensions"
            &&& e.detail@ == "element count overflow"@
        },
{
    let mut count: usize = 1;
    let mut i: usize = 0;
    while i < dimensions.len()
        invariant
            i <= dimensions@.len(),
            count == prefix_product(dimensions@, i as int),
            forall|k: int| 0 <= k <= i ==> #[trigger] prefix_product(dimensions@, k) <= usize::MAX,
        decreases dimensions@.len() - i,
    {
        proof {
            lemma_prefix_product_nonneg(dimensions@, i as int);
        }
        match count.checked_mul(dimensions[i]) {
            Some(next) => {
                count = next;
            },
            None => {
                assert(prefix_product(dimensions@, i + 1) > usize::MAX);
                return Err(Error::new(ErrorKind::InvalidInput, "dimensions", "element count overflow"));
            },
        }
        i = i + 1;
    }
    Ok(count)
}

/// The column offsets have one entry per column plus one, starting at zero.
pub open spec fn offsets_shaped(columns: usize, offsets: Seq<usize>) -> bool {
    offsets.len() == columns + 1 && offsets[0] == 0
}

/// The last offset and the number of row indices both equal the value count.
pub open spec fn lengths_agree(offsets: Seq<usize>, indices: Seq<usize>, values: usize) -> bool {
    indices.len() == values && offsets.len() > 0 && offsets[offsets.len() - 1] == values
}

/// Adjacent column offsets never decrease.
pub open spec fn offsets_monotonic(offsets: Seq<usize>) -> bool {
    forall|i: int| 0 <= i < offsets.len() - 1 ==> #[trigger] offsets[i] <= offsets[i + 1]
}

/// The row indices of column `c` are in bounds and strictly increasing.
pub open spec fn column_rows_valid(rows: usize, offsets: Seq<usize>, indices: Seq<usize>, c: int) -> bool {
    &&& forall|j: int| offsets[c] <= j < offsets[c + 1] ==> #[trigger] indices[j] < rows
    &&& forall|j: int| offsets[c] <= j < offsets[c + 1] - 1 ==> #[trigger] indices[j] < indices[j + 1]
}

/// Every column's row indices are sorted, unique, and in bounds.
pub open spec fn all_columns_valid(rows: usize, columns: usize, offsets: Seq<usize>, indices: Seq<usize>) -> bool {
    forall|c: int| 0 <= c < columns ==> #[trigger] column_rows_valid(rows, offsets, indices, c)
}

/// The first rule that compressed-column components break, as the error
/// detail reported for it, or `None` when they describe a valid
/// `rows`-by-`columns` sparse array with `values` stored entries.
pub open spec fn sparse_fault(
    rows: usize,
    columns: usize,
    offsets: Seq<usize>,
    indices: Seq<usize>,
    values: usize,
) -> Option<Seq<char>> {
    if columns == usize::MAX {
        Some("column count overflow"@)
    } else if !offsets_shaped(columns, offsets) {
        Some("invalid column offsets"@)
    } else if !lengths_agree(offsets, indices, values) {
        Some("index/value length mismatch"@)
    } else if !offsets_monotonic(offsets) {
        Some("column offsets are not monotonic"@)
    } else if !all_columns_valid(rows, columns, offsets, indices) {
        Some("row indices must be sorted, unique, and in bounds"@)
    } else {
        None
    }
}

proof fn lemma_offsets_ordered(offsets: Seq<usize>, i: int, j: int)
    requires
        offsets_monotonic(offsets),
        0 <= i <= j < offsets.len(),
    ensures
        offsets[i] <= offsets[j],
    decreases j - i,
{
    if i < j {
        lemma_offsets_ordered(offsets, i, j - 1);
        assert(offsets[j - 1] <= offsets[j]);
    }
}

/// Test the row indices of one column.
fn column_is_valid(rows: usize, offsets: &[usize], indices: &[usize], c: usize) -> (ok: bool)
    requires
        c + 1 < offsets@.len(),
        offsets@[c as int] <= offsets@[c + 1] <= indices@.len(),
    ensures
        ok == column_rows_valid(rows, offsets@, indices@, c as int),
{
    let lo = offsets[c];
    let hi = offsets[c + 1];
    let mut j = lo;
    while j < hi
        invariant
            lo == offsets@[c as int],
            hi == offsets@[c + 1],
            lo <= j <= hi,
            hi <= indices@.len(),
            forall|m: int| lo <= m < j ==> #[trigger] indices@[m] < rows,
            forall|m: int| lo <= m < j - 1 ==> #[trigger] indices@[m] < indices@[m + 1],
        decreases hi - j,
    {
        if indices[j] >= rows {
            return false;
        }
        if j > lo && indices[j - 1] >= indices[j] {
            assert(!(indices@[j - 1] < indices@[j - 1 + 1]));
            return false;
        }
        j = j + 1;
    }
    true
}

/// Compressed-column components are accepted exactly when the column
/// count leaves room for one more offset, there is one offset per column
/// plus one, starting at zero and ending at the value count, the offsets
/// never decrease, there is one row index per value, and within every
/// column the row indices are below `rows` and strictly increasing from
/// each stored entry to the next.
pub proof fn law_sparse_rules(
    rows: usize,
    columns: usize,
    offsets: Seq<usize>,
    indices: Seq<usize>,
    values: usize,
)
    ensures
        sparse_fault(rows, columns, offsets, indices, values) is None <==> {
            &&& columns < usize::MAX
            &&& offsets.len() == columns + 1
            &&& offsets[0] == 0
            &&& offsets[columns as int] == values
            &&& indices.len() == values
            &&& forall|i: int| 0 <= i < columns ==> #[trigger] offsets[i] <= offsets[i + 1]
            &&& forall|c: int, j: int|
                #![trigger offsets[c], indices[j]]
                0 <= c < columns && offsets[c] <= j < offsets[c + 1] ==> indices[j] < rows
            &&& forall|c: int, j: int|
                #![trigger offsets[c], indices[j]]
                0 <= c < columns && offsets[c] <= j && j + 1 < offsets[c + 1] ==> indices[j]
                    < indices[j + 1]
        },
{
    let direct = {
        &&& columns < usize::MAX
        &&& offsets.len() == columns + 1
        &&& offsets[0] == 0
        &&& offsets[columns as int] == values
        &&& indices.len() == values
        &&& forall|i: int| 0 <= i < columns ==> #[trigger] offsets[i] <= offsets[i + 1]
        &&& forall|c: int, j: int|
            #![trigger offsets[c], indices[j]]
            0 <= c < columns && offsets[c] <= j < offsets[c + 1] ==> indices[j] < rows
        &&& forall|c: int, j: int|
            #![trigger offsets[c], indices[j]]
            0 <= c < columns && offsets[c] <= j && j + 1 < offsets[c + 1] ==> indices[j] < indices[j
                + 1]
    };
    if sparse_fault(rows, columns, offsets, indices, values) is None {
        assert forall|c: int, j: int|
            #![trigger offsets[c], indices[j]]
            0 <= c < columns && offsets[c] <= j < offsets[c + 1] implies indices[j] < rows by {
            assert(column_rows_valid(rows, offsets, indices, c));
        }
        assert forall|c: int, j: int|
            #![trigger offsets[c], indices[j]]
            0 <= c < columns && offsets[c] <= j && j + 1 < offsets[c + 1] implies indices[j]
                < indices[j + 1] by {
            assert(column_rows_valid(rows, offsets, indices, c));
        }
        assert(direct);
    }
    if direct {
        assert forall|c: int| 0 <= c < columns implies #[trigger] column_rows_valid(
            rows,
            offsets,
            indices,
            c,
        ) by {
            assert forall|j: int| offsets[c] <= j < offsets[c + 1] implies #[trigger] indices[j]
                < rows by {
                assert(offsets[c] == offsets[c]);
            }
            assert forall|j: int| offsets[c] <= j < offsets[c + 1] - 1 implies #[trigger] indices[j]
                < indices[j + 1] by {
                assert(offsets[c] == offsets[c]);
            }
        }
        assert(sparse_fault(rows, columns, offsets, indices, values) is None);
    }
}

/// The rules of [`validate_sparse`], checked one after another.
fn check_sparse_components(rows: usize, columns: usize, offsets: &[usize], indices: &[usize], values: usize) -> (r:
    Result<()>)
    ensures
        r matches Err(e) ==> e.is_plain(),
        r is Ok <==> sparse_fault(rows, columns, offsets@, indices@, values) is None,
        r matches Err(e) ==> {
            &&& e.kind == ErrorKind::InvalidInput
            &&& e.operation == "sparse"
            &&& sparse_fault(rows, columns, offsets@, indices@, values) == Some(e.detail@)
        },
{
    if columns == usize::MAX {
        return Err(Error::new(ErrorKind::InvalidInput, "sparse", "column count overflow"));
    }
    let expected_offsets = columns + 1;
    if offsets.len() != expected_offsets || offsets[0] != 0 {
        return Err(Error::new(ErrorKind::InvalidInput, "sparse", "invalid column offsets"));
    }
    if indices.len() != values || offsets[offsets.len() - 1] != values {
        return Err(Error::new(ErrorKind::InvalidInput, "sparse", "index/value length mismatch"));
    }
    let n = offsets.len();
    let mut i: usize = 0;
    while i < n - 1
        invariant
            n == offsets@.len(),
            n == columns + 1,
            columns < usize::MAX,
            offsets_shaped(columns, offsets@),
            lengths_agree(offsets@, indices@, values),
            i < n,
            forall|k: int| 0 <= k < i ==> #[trigger] offsets@[k] <= offsets@[k + 1],
        decreases n - i,
    {
        if offsets[i] > offsets[i + 1] {
            assert(!(offsets@[i as int] <= offsets@[i + 1]));
            assert(!offsets_monotonic(offsets@));
            return Err(
                Error::new(ErrorKind::InvalidInput, "sparse", "column offsets are not monotonic"),
            );
        }
        i = i + 1;
    }
    assert(offsets_monotonic(offsets@));
    let mut c: usize = 0;
    while c < columns
        invariant
            c <= columns,
            columns < usize::MAX,
            offsets_shaped(columns, offsets@),
            lengths_agree(offsets@, indices@, values),
            offsets_monotonic(offsets@),
            forall|k: int| 0 <= k < c ==> #[trigger] column_rows_valid(rows, offsets@, indices@, k),
        decreases columns - c,
    {
        proof {
            lemma_offsets_ordered(offsets@, c + 1, columns as int);
            assert(offsets@[c as int] <= offsets@[c + 1]);
        }
        if !column_is_valid(rows, offsets, indices, c) {
            assert(!all_columns_valid(rows, columns, offsets@, indices@));
            return Err(
                Error::new(
                    ErrorKind::InvalidInput,
                    "sparse",
                    "row indices must be sorted, unique, and in bounds",
                ),
            );
        }
        c = c + 1;
    }
    Ok(())
}

/// Check compressed-column (CSC) sparse components before they are copied
/// into a new MATLAB sparse array.
pub fn validate_sparse(rows: usize, columns: usize, offsets: &[usize], indices: &[usize], values: usize) -> (r:
    Result<()>)
    ensures
        r matches Err(e) ==> e.is_plain(),
        r is Ok <==> sparse_fault(rows, columns, offsets@, indices@, values) is None,
        r is Ok ==> forall|c: int, j: int|
            #![trigger offsets@[c], indices@[j]]
            0 <= c < columns && offsets@[c] <= j && j + 1 < offsets@[c + 1] ==> indices@[j]
                < indices@[j + 1],
        r is Ok ==> forall|c: int, j: int|
            #![trigger offsets@[c], indices@[j]]
            0 <= c < columns && offsets@[c] <= j < offsets@[c + 1] ==> indices@[j] < rows,
        r matches Err(e) ==> {
            &&& e.kind == ErrorKind::InvalidInput
            &&& e.operation == "sparse"
            &&& sparse_fault(rows, columns, offsets@, indices@, values) == Some(e.detail@)
        },
{
    let r = check_sparse_components(rows, columns, offsets, indices, values);
    proof {
        law_sparse_rules(rows, columns, offsets@, indices@, values);
    }
    r
}

/// Column-major offset of the first `k` subscripts:
/// `sum_{j < k} s[j] * (d[0] * ... * d[j - 1])`.
pub open spec fn partial_index(d: Seq<usize>, s: Seq<usize>, k: int) -> int
    decreases k,
{
    if k <= 0 {
        0
    } else {
        partial_index(d, s, k - 1) + s[k - 1] * prefix_product(d, k - 1)
    }
}

/// What goes wrong at step `k` of the linear-index computation, as the error
/// detail: a subscript outside its dimension, an index that no longer fits in
/// `usize`, or a stride that no longer fits.
pub open spec fn index_step_fault(d: Seq<usize>, s: Seq<usize>, k: int) -> Option<Seq<char>> {
    if s[k] >= d[k] {
        Some(bounds_detail(s[k] as nat, d[k] as nat))
    } else if s[k] * prefix_product(d, k) > usize::MAX || partial_index(d, s, k) + s[k]
        * prefix_product(d, k) > usize::MAX {
        Some("index overflow"@)
    } else if prefix_product(d, k) * d[k] > usize::MAX {
        Some("stride overflow"@)
    } else {
        None
    }
}

/// The fault of the first failing step at or after `k`.
pub open spec fn index_fault_from(d: Seq<usize>, s: Seq<usize>, k: int) -> Option<Seq<char>>
    decreases d.len() - k,
{
    if k < 0 || k >= d.len() {
        None
    } else if index_step_fault(d, s, k) is Some {
        index_step_fault(d, s, k)
    } else {
        index_fault_from(d, s, k + 1)
    }
}

proof fn lemma_no_fault_prefix(d: Seq<usize>, s: Seq<usize>, k: int)
    requires
        0 <= k < d.len(),
        index_fault_from(d, s, 0) == index_fault_from(d, s, k),
        index_step_fault(d, s, k) is None,
    ensures
        index_fault_from(d, s, 0) == index_fault_from(d, s, k + 1),
{
}

/// Convert zero-based multidimensional subscripts into MATLAB's linear,
/// column-major index. The number of subscripts must match the rank.
pub fn linear_index(dimensions: &[usize], subscripts: &[usize]) -> (r: Result<usize>)
    ensures
        r matches Err(e) ==> e.is_plain(),
        subscripts@.len() != dimensions@.len() ==> (r matches Err(e) && e.kind
            == ErrorKind::InvalidInput && e.operation == "linear index" && e.detail@
            == crate::error::count_detail(
            dimensions@.len() as nat,
            "subscripts"@,
            subscripts@.len() as nat,
        )),
        subscripts@.len() == dimensions@.len() ==> {
            &&& (r is Ok <==> index_fault_from(dimensions@, subscripts@, 0) is None)
            &&& r matches Ok(i) ==> i == partial_index(
                dimensions@,
                subscripts@,
                dimensions@.len() as int,
            )
            &&& r matches Err(e) ==> e.kind == ErrorKind::Bounds && e.operation == "linear index"
                && index_fault_from(dimensions@, subscripts@, 0) == Some(e.detail@)
        },
{
    let d = dimensions;
    let s = subscripts;
    if s.len() != d.len() {
        return Err(
            Error::count_mismatch(
                ErrorKind::InvalidInput,
                "linear index",
                d.len(),
                "subscripts",
                s.len(),
            ),
        );
    }
    let mut index: usize = 0;
    let mut stride: usize = 1;
    let mut k: usize = 0;
    while k < d.len()
        invariant
            d@ == dimensions@,
            s@ == subscripts@,
            d@.len() == s@.len(),
            k <= d@.len(),
            index == partial_index(d@, s@, k as int),
            stride == prefix_product(d@, k as int),
            index_fault_from(d@, s@, 0) == index_fault_from(d@, s@, k as int),
        decreases d@.len() - k,
    {
        let dimension = d[k];
        let subscript = s[k];
        proof {
            lemma_prefix_product_nonneg(d@, k as int);
        }
        if subscript >= dimension {
            return Err(Error::bounds("linear index", subscript, dimension));
        }
        let offset = match subscript.checked_mul(stride) {
            Some(v) => v,
            None => {
                return Err(Error::new(ErrorKind::Bounds, "linear index", "index overflow"));
            },
        };
        let next_index = match index.checked_add(offset) {
            Some(v) => v,
            None => {
                return Err(Error::new(ErrorKind::Bounds, "linear index", "index overflow"));
            },
        };
        let next_stride = match stride.checked_mul(dimension) {
            Some(v) => v,
            None => {
                return Err(Error::new(ErrorKind::Bounds, "linear index", "stride overflow"));
            },
        };
        proof {
            lemma_no_fault_prefix(d@, s@, k as int);
        }
        index = next_index;
        stride = next_stride;
        k = k + 1;
    }
    Ok(index)
}

proof fn lemma_partial_index_below(d: Seq<usize>, s: Seq<usize>, k: int)
    requires
        0 <= k <= d.len(),
        s.len() == d.len(),
        forall|j: int| 0 <= j < d.len() ==> #[trigger] s[j] < d[j],
    ensures
        0 <= partial_index(d, s, k) < prefix_product(d, k),
    decreases k,
{
    if k > 0 {
        lemma_partial_index_below(d, s, k - 1);
        lemma_prefix_product_nonneg(d, k - 1);
        let p = prefix_product(d, k - 1);
        let q = partial_index(d, s, k - 1);
        let x = s[k - 1] as int;
        let y = d[k - 1] as int;
        assert(0 <= x < y);
        assert(0 <= q + x * p < p * y) by (nonlinear_arith)
            requires
                0 <= q < p,
                0 <= x < y,
        ;
    }
}

proof fn lemma_no_fault_from(d: Seq<usize>, s: Seq<usize>, k: int)
    requires
        0 <= k <= d.len(),
        s.len() == d.len(),
        forall|j: int| 0 <= j < d.len() ==> #[trigger] s[j] < d[j],
        count_fits(d),
    ensures
        index_fault_from(d, s, k) is None,
    decreases d.len() - k,
{
    if k < d.len() {
        lemma_no_fault_from(d, s, k + 1);
        lemma_partial_index_below(d, s, k + 1);
        lemma_partial_index_below(d, s, k);
        lemma_prefix_product_nonneg(d, k);
        let p = prefix_product(d, k);
        let q = partial_index(d, s, k);
        let x = s[k] as int;
        assert(prefix_product(d, k + 1) <= usize::MAX);
        assert(0 <= x * p <= q + x * p) by (nonlinear_arith)
            requires
                0 <= q,
                0 <= x,
                0 <= p,
        ;
        assert(index_step_fault(d, s, k) is None);
    }
}

/// Subscripts inside every dimension of an array whose element count fits
/// in `usize` always convert, and the column-major linear index they give
/// lies below the element count.
pub proof fn law_linear_index_in_range(d: Seq<usize>, s: Seq<usize>)
    requires
        s.len() == d.len(),
        forall|j: int| 0 <= j < d.len() ==> #[trigger] s[j] < d[j],
        count_fits(d),
    ensures
        index_fault_from(d, s, 0) is None,
        0 <= partial_index(d, s, d.len() as int) < prefix_product(d, d.len() as int),
{
    lemma_no_fault_from(d, s, 0);
    lemma_partial_index_below(d, s, d.len() as int);
}

/// Validated compressed-column indices borrowed from a sparse array.
pub struct SparseIndices<'a> {
    /// Row index for each stored value.
    pub rows: &'a [usize],
    /// Column offsets; its length is the column count plus one.
    pub columns: &'a [usize],
}

/// The number of stored entries of a sparse array: the last column offset.
pub open spec fn stored_count(columns: Seq<usize>) -> usize {
    if columns.len() == 0 {
        0
    } else {
        columns[columns.len() - 1]
    }
}

/// Check the column offsets that MATLAB reports for a sparse array and
/// return the number of stored entries.
///
/// # Errors
///
/// Returns a native error when the offsets decrease or exceed the capacity.
pub fn sparse_stored_count(columns: &[usize], nzmax: usize) -> (r: Result<usize>)
    ensures
        r matches Err(e) ==> e.is_plain(),
        r is Ok <==> stored_count(columns@) <= nzmax && offsets_monotonic(columns@),
        r matches Ok(n) ==> n == stored_count(columns@),
        r matches Err(e) ==> e.kind == ErrorKind::Native && e.operation == "sparse indices"
            && e.detail@ == "invalid compressed-column structure"@,
{
    let nnz = if columns.len() == 0 {
        0
    } else {
        columns[columns.len() - 1]
    };
    let mut monotonic = true;
    let mut i: usize = 0;
    let n = columns.len();
    while n > 0 && i < n - 1
        invariant
            n == columns@.len(),
            i <= columns@.len(),
            columns@.len() == 0 || i < columns@.len(),
            monotonic == forall|k: int| 0 <= k < i ==> #[trigger] columns@[k] <= columns@[k + 1],
        decreases columns@.len() - i,
    {
        if columns[i] > columns[i + 1] {
            monotonic = false;
        }
        i = i + 1;
    }
    if nnz > nzmax || !monotonic {
        return Err(
            Error::new(ErrorKind::Native, "sparse indices", "invalid compressed-column structure"),
        );
    }
    Ok(nnz)
}

/// Check the index arrays MATLAB reports for a sparse array with `columns`
/// columns and capacity `nzmax`, and return the number of column offsets.
///
/// # Errors
///
/// Returns a bounds error when the offset count overflows and a native error
/// when a needed index array is missing.
pub fn sparse_pointers(columns: usize, nzmax: usize, columns_missing: bool, rows_missing: bool) -> (r:
    Result<usize>)
    ensures
        r matches Err(e) ==> e.is_plain(),
        columns == usize::MAX ==> (r matches Err(e) && e.kind == ErrorKind::Bounds && e.operation
            == "sparse indices" && e.detail@ == "column count overflow"@),
        columns < usize::MAX ==> (r is Ok <==> !columns_missing && !(nzmax > 0 && rows_missing)),
        columns < usize::MAX ==> (r matches Ok(n) ==> n == columns + 1),
        columns < usize::MAX ==> (r matches Err(e) ==> e.kind == ErrorKind::Native && e.operation
            == "sparse indices" && e.detail@ == "null sparse index pointer"@),
{
    if columns == usize::MAX {
        return Err(Error::new(ErrorKind::Bounds, "sparse indices", "column count overflow"));
    }
    if columns_missing || (nzmax > 0 && rows_missing) {
        return Err(Error::new(ErrorKind::Native, "sparse indices", "null sparse index pointer"));
    }
    Ok(columns + 1)
}

/// Largest byte length of a Rust slice.
pub const MAX_SLICE_BYTES: usize = isize::MAX as usize;

/// Check that native storage of `len` elements of `size` bytes can be
/// borrowed as a Rust slice.
///
/// # Errors
///
/// Returns a native error for a missing pointer and a bounds error for a
/// buffer larger than a slice can describe; an empty buffer needs neither.
pub fn check_slice(len: usize, size: usize, missing: bool, operation: &'static str) -> (r: Result<()>)
    ensures
        r matches Err(e) ==> e.is_plain(),
        r is Ok <==> len == 0 || (!missing && len * size <= MAX_SLICE_BYTES),
        r matches Err(e) ==> missing ==> e.kind == ErrorKind::Native && e.operation == operation
            && e.detail@ == "null data pointer"@,
        r matches Err(e) ==> !missing ==> e.kind == ErrorKind::Bounds && e.operation == operation
            && e.detail@ == "buffer is too large for a Rust slice"@,
{
    if len == 0 {
        return Ok(());
    }
    if missing {
        return Err(Error::new(ErrorKind::Native, operation, "null data pointer"));
    }
    match len.checked_mul(size) {
        Some(bytes) => {
            if bytes > MAX_SLICE_BYTES {
                return Err(Error::new(ErrorKind::Bounds, operation, "buffer is too large for a Rust slice"));
            }
        },
        None => {
            return Err(Error::new(ErrorKind::Bounds, operation, "buffer is too large for a Rust slice"));
        },
    }
    Ok(())
}

/// Header metadata of a MATLAB array: what the safe accessors check before
/// they borrow its storage or children.
#[derive(Clone, Copy)]
pub struct ArrayHeader<'a> {
    /// Native `mxClassID`.
    pub class_id: i32,
    /// MATLAB class name, as the bytes of its C string.
    pub class_name: &'a [u8],
    /// Dimension vector.
    pub dimensions: &'a [usize],
    /// Number of elements.
    pub numel: usize,
    /// Storage size of one element.
    pub element_size: usize,
    /// Numeric class.
    pub is_numeric: bool,
    /// Logical class.
    pub is_logical: bool,
    /// Character class.
    pub is_char: bool,
    /// Cell class.
    pub is_cell: bool,
    /// Structure class.
    pub is_struct: bool,
    /// Object class.
    pub is_object: bool,
    /// Sparse storage.
    pub is_sparse: bool,
    /// Complex storage.
    pub is_complex: bool,
    /// No elements.
    pub is_empty: bool,
}

/// Storage with exactly the element layout `l`: its class, complexity and
/// element size.
pub open spec fn stores(h: ArrayHeader, l: Layout) -> bool {
    &&& h.class_id == class_id(l.class)
    &&& h.is_complex == l.complex
    &&& h.element_size == l.size
}

/// Dense numeric storage with exactly the element layout of `T`.
pub open spec fn dense_layout<T: Numeric>(h: ArrayHeader) -> bool {
    &&& h.class_id == class_id(T::spec_class())
    &&& h.is_complex == T::spec_complex()
    &&& !h.is_sparse
    &&& h.element_size == T::spec_size()
}

/// Sparse numeric storage with exactly the element layout of `T`.
pub open spec fn sparse_layout<T: Numeric>(h: ArrayHeader) -> bool {
    &&& h.is_sparse
    &&& h.class_id == class_id(T::spec_class())
    &&& h.is_complex == T::spec_complex()
    &&& h.element_size == T::spec_size()
}

/// A type error naming what was expected and the array's class.
pub open spec fn is_type_error(e: Error, operation: &str, expected: Seq<char>, h: ArrayHeader) -> bool {
    &&& e.kind == ErrorKind::Type
    &&& e.operation == operation
    &&& e.detail@ == type_detail(expected, h.class_name@)
}

impl<'a> ArrayHeader<'a> {
    /// Return the array class when it is known to this crate.
    pub fn class(&self) -> (r: Option<Class>)
        ensures
            r is Some <==> 0 <= self.class_id <= 18,
            r matches Some(c) ==> class_id(c) == self.class_id,
    {
        Class::from_raw(self.class_id)
    }

    /// Convert zero-based subscripts into the column-major linear index.
    pub fn linear_index(&self, subscripts: &[usize]) -> (r: Result<usize>)
        ensures
            r matches Err(e) ==> e.is_plain(),
            subscripts@.len() == self.dimensions@.len() ==> {
                &&& (r is Ok <==> index_fault_from(self.dimensions@, subscripts@, 0) is None)
                &&& r matches Ok(i) ==> i == partial_index(
                    self.dimensions@,
                    subscripts@,
                    self.dimensions@.len() as int,
                )
            },
            subscripts@.len() == self.dimensions@.len() ==> (r matches Err(e) ==> e.kind
                == ErrorKind::Bounds && e.operation == "linear index" && index_fault_from(
                self.dimensions@,
                subscripts@,
                0,
            ) == Some(e.detail@)),
            subscripts@.len() != self.dimensions@.len() ==> (r matches Err(e) && e.kind
                == ErrorKind::InvalidInput && e.operation == "linear index" && e.detail@
                == crate::error::count_detail(
                self.dimensions@.len() as nat,
                "subscripts"@,
                subscripts@.len() as nat,
            )),
    {
        linear_index(self.dimensions, subscripts)
    }

    /// Require dense numeric storage of element type `T`.
    pub fn check_numeric<T: Numeric>(&self, operation: &'static str) -> (r: Result<()>)
        ensures
            r matches Err(e) ==> e.is_plain(),
            r is Ok <==> dense_layout::<T>(*self),
            r matches Err(e) ==> is_type_error(e, operation, T::spec_name(), *self),
    {
        self.check_layout(operation, layout_of::<T>())
    }

    /// Require dense numeric storage with element layout `layout`.
    pub fn check_layout(&self, operation: &'static str, layout: Layout) -> (r: Result<()>)
        ensures
            r matches Err(e) ==> e.is_plain(),
            r is Ok <==> stores(*self, layout) && !self.is_sparse,
            r matches Err(e) ==> is_type_error(e, operation, layout.name@, *self),
    {
        if self.class_id != layout.class.to_raw() || self.is_complex != layout.complex
            || self.is_sparse || self.element_size != layout.size {
            return Err(Error::type_mismatch(operation, layout.name, self.class_name));
        }
        Ok(())
    }

    /// Require sparse numeric storage with element layout `layout`.
    pub fn check_sparse_layout(&self, operation: &'static str, layout: Layout) -> (r: Result<()>)
        ensures
            r matches Err(e) ==> e.is_plain(),
            r is Ok <==> stores(*self, layout) && self.is_sparse,
            r matches Err(e) ==> is_type_error(e, operation, layout.name@, *self),
    {
        if !self.is_sparse || self.class_id != layout.class.to_raw() || self.is_complex
            != layout.complex || self.element_size != layout.size {
            return Err(Error::type_mismatch(operation, layout.name, self.class_name));
        }
        Ok(())
    }

    /// Require sparse numeric storage of element type `T`.
    pub fn check_sparse_numeric<T: Numeric>(&self, operation: &'static str) -> (r: Result<()>)
        ensures
            r matches Err(e) ==> e.is_plain(),
            r is Ok <==> sparse_layout::<T>(*self),
            r matches Err(e) ==> is_type_error(e, operation, T::spec_name(), *self),
    {
        self.check_sparse_layout(operation, layout_of::<T>())
    }

    /// Require the right class for a child access and an element index
    /// within the array.
    pub fn check_index(&self, operation: &'static str, index: usize, right_class: bool) -> (r: Result<()>)
        ensures
            r matches Err(e) ==> e.is_plain(),
            r is Ok <==> right_class && index < self.numel,
            r matches Err(e) ==> !right_class ==> is_type_error(e, operation, operation@, *self),
            r matches Err(e) ==> right_class ==> e.kind == ErrorKind::Bounds && e.operation
                == operation && e.detail@ == bounds_detail(index as nat, self.numel as nat),
    {
        if !right_class {
            return Err(Error::type_mismatch(operation, operation, self.class_name));
        }
        if index >= self.numel {
            return Err(Error::bounds(operation, index, self.numel));
        }
        Ok(())
    }

    /// Require a nonempty dense numeric array, whose first element MATLAB
    /// converts to a scalar.
    pub fn check_scalar(&self) -> (r: Result<()>)
        ensures
            r matches Err(e) ==> e.is_plain(),
            r is Ok <==> self.is_numeric && !self.is_sparse && !self.is_empty,
            r matches Err(e) ==> is_type_error(e, "scalar", "nonempty dense numeric"@, *self),
    {
        if !self.is_numeric || self.is_sparse || self.is_empty {
            return Err(Error::type_mismatch("scalar", "nonempty dense numeric", self.class_name));
        }
        Ok(())
    }

    /// Require dense logical storage.
    pub fn check_dense_logical(&self, operation: &'static str) -> (r: Result<()>)
        ensures
            r matches Err(e) ==> e.is_plain(),
            r is Ok <==> self.is_logical && !self.is_sparse,
            r matches Err(e) ==> is_type_error(e, operation, "dense logical"@, *self),
    {
        if !self.is_logical || self.is_sparse {
            return Err(Error::type_mismatch(operation, "dense logical", self.class_name));
        }
        Ok(())
    }

    /// Require sparse logical storage.
    pub fn check_sparse_logical(&self, operation: &'static str) -> (r: Result<()>)
        ensures
            r matches Err(e) ==> e.is_plain(),
            r is Ok <==> self.is_logical && self.is_sparse,
            r matches Err(e) ==> is_type_error(e, operation, "sparse logical"@, *self),
    {
        if !self.is_sparse || !self.is_logical {
            return Err(Error::type_mismatch(operation, "sparse logical", self.class_name));
        }
        Ok(())
    }

    /// Require a character array.
    pub fn check_char(&self, operation: &'static str) -> (r: Result<()>)
        ensures
            r matches Err(e) ==> e.is_plain(),
            r is Ok <==> self.is_char,
            r matches Err(e) ==> is_type_error(e, operation, "char"@, *self),
    {
        if !self.is_char {
            return Err(Error::type_mismatch(operation, "char", self.class_name));
        }
        Ok(())
    }

    /// Require a structure array.
    pub fn check_struct(&self, operation: &'static str) -> (r: Result<()>)
        ensures
            r matches Err(e) ==> e.is_plain(),
            r is Ok <==> self.is_struct,
            r matches Err(e) ==> is_type_error(e, operation, "struct"@, *self),
    {
        if !self.is_struct {
            return Err(Error::type_mismatch(operation, "struct", self.class_name));
        }
        Ok(())
    }

    /// Require a sparse array.
    pub fn check_sparse(&self, operation: &'static str) -> (r: Result<()>)
        ensures
            r matches Err(e) ==> e.is_plain(),
            r is Ok <==> self.is_sparse,
            r matches Err(e) ==> is_type_error(e, operation, "sparse"@, *self),
    {
        if !self.is_sparse {
            return Err(Error::type_mismatch(operation, "sparse", self.class_name));
        }
        Ok(())
    }

    /// Require a numeric array (for conversion between real and complex
    /// storage).
    pub fn check_numeric_class(&self, operation: &'static str) -> (r: Result<()>)
        ensures
            r matches Err(e) ==> e.is_plain(),
            r is Ok <==> self.is_numeric,
            r matches Err(e) ==> is_type_error(e, operation, "numeric"@, *self),
    {
        if !self.is_numeric {
            return Err(Error::type_mismatch(operation, "numeric", self.class_name));
        }
        Ok(())
    }

    /// Require an object array and an element index within it for a
    /// property write.
    pub fn check_set_property(&self, index: usize) -> (r: Result<()>)
        ensures
            r matches Err(e) ==> e.is_plain(),
            r is Ok <==> self.is_object && index < self.numel,
            r matches Err(e) ==> !self.is_object ==> is_type_error(e, "set property", "object"@, *self),
            r matches Err(e) ==> self.is_object ==> e.kind == ErrorKind::Bounds && e.operation
                == "set property" && e.detail@ == bounds_detail(index as nat, self.numel as nat),
    {
        if !self.is_object {
            return Err(Error::type_mismatch("set property", "object", self.class_name));
        }
        if index >= self.numel {
            return Err(Error::bounds("set property", index, self.numel));
        }
        Ok(())
    }

    /// Require an object array and an element index within it for a
    /// property read of an owned array.
    pub fn check_get_property(&self, index: usize) -> (r: Result<()>)
        ensures
            r matches Err(e) ==> e.is_plain(),
            r is Ok <==> self.is_object && index < self.numel,
            r matches Err(e) ==> e.kind == ErrorKind::Bounds && e.operation == "get property"
                && e.detail@ == bounds_detail(index as nat, self.numel as nat),
    {
        if !self.is_object || index >= self.numel {
            return Err(Error::bounds("get property", index, self.numel));
        }
        Ok(())
    }

    /// Require a structure, an element index within it, and a field number
    /// below `fields`.
    pub fn check_field(&self, index: usize, field: usize, fields: usize) -> (r: Result<()>)
        ensures
            r matches Err(e) ==> e.is_plain(),
            r is Ok <==> self.is_struct && index < self.numel && field < fields,
            r matches Err(e) ==> !self.is_struct ==> is_type_error(e, "field", "field"@, *self),
            r matches Err(e) ==> self.is_struct && index >= self.numel ==> e.kind == ErrorKind::Bounds
                && e.detail@ == bounds_detail(index as nat, self.numel as nat),
            r matches Err(e) ==> self.is_struct && index < self.numel ==> e.kind == ErrorKind::Bounds
                && e.detail@ == bounds_detail(field as nat, fields as nat),
    {
        self.check_index("field", index, self.is_struct)?;
        if field >= fields {
            return Err(Error::bounds("field", field, fields));
        }
        Ok(())
    }

    /// Require a structure with a field numbered `field` below `fields`
    /// before that field is removed.
    pub fn check_remove_field(&self, field: usize, fields: usize) -> (r: Result<()>)
        ensures
            r matches Err(e) ==> e.is_plain(),
            r is Ok <==> self.is_struct && field < fields,
            r matches Err(e) ==> !self.is_struct ==> is_type_error(e, "remove field", "struct"@, *self),
            r matches Err(e) ==> self.is_struct ==> e.kind == ErrorKind::Bounds && e.operation
                == "remove field" && e.detail@ == bounds_detail(field as nat, fields as nat),
    {
        self.check_struct("remove field")?;
        if field >= fields {
            return Err(Error::bounds("remove field", field, fields));
        }
        Ok(())
    }

    /// Check a new shape for an in-place reshape: at least two dimensions,
    /// no change of shape for sparse storage, and the same element count.
    pub fn check_reshape(&self, dimensions: &[usize]) -> (r: Result<()>)
        ensures
            r matches Err(e) ==> e.is_plain(),
            r is Ok <==> dimensions@.len() >= 2 && (self.is_sparse ==> dimensions@
                == self.dimensions@) && count_fits(dimensions@) && prefix_product(
                dimensions@,
                dimensions@.len() as int,
            ) == self.numel,
            r matches Err(e) ==> e.kind == ErrorKind::InvalidInput,
    {
        validate_dimensions(dimensions)?;
        if self.is_sparse && !same_dimensions(dimensions, self.dimensions) {
            return Err(
                Error::new(
                    ErrorKind::InvalidInput,
                    "reshape",
                    "sparse arrays cannot be reshaped without rebuilding CSC storage",
                ),
            );
        }
        let count = element_count(dimensions)?;
        if count != self.numel {
            return Err(
                Error::new(ErrorKind::InvalidInput, "reshape", "new shape must preserve the element count"),
            );
        }
        Ok(())
    }
}

/// Compare two dimension vectors.
pub fn same_dimensions(a: &[usize], b: &[usize]) -> (r: bool)
    ensures
        r == (a@ == b@),
{
    if a.len() != b.len() {
        return false;
    }
    let mut i: usize = 0;
    while i < a.len()
        invariant
            a@.len() == b@.len(),
            i <= a@.len(),
            forall|k: int| 0 <= k < i ==> a@[k] == b@[k],
        decreases a@.len() - i,
    {
        if a[i] != b[i] {
            return false;
        }
        i = i + 1;
    }
    assert(a@ =~= b@);
    true
}

/// Check that `values` elements of `size` bytes fill an array of `numel`
/// elements.
///
/// # Errors
///
/// Returns an input error for a length mismatch and a bounds error when the
/// data is too large for a Rust slice.
pub fn check_fill(numel: usize, values: usize, size: usize) -> (r: Result<()>)
    ensures
        r matches Err(e) ==> e.is_plain(),
        r is Ok <==> values == numel && (values == 0 || values * size <= MAX_SLICE_BYTES),
        r matches Err(e) ==> values != numel ==> e.kind == ErrorKind::InvalidInput && e.operation
            == "initialize numeric array" && e.detail@ == crate::error::count_detail(
            numel as nat,
            "elements"@,
            values as nat,
        ),
        r matches Err(e) ==> values == numel ==> e.kind == ErrorKind::Bounds && e.operation
            == "initialize numeric array" && e.detail@ == "buffer is too large for a Rust slice"@,
{
    if values != numel {
        return Err(
            Error::count_mismatch(
                ErrorKind::InvalidInput,
                "initialize numeric array",
                numel,
                "elements",
                values,
            ),
        );
    }
    if values != 0 {
        match values.checked_mul(size) {
            Some(bytes) => {
                if bytes > MAX_SLICE_BYTES {
                    return Err(
                        Error::new(
                            ErrorKind::Bounds,
                            "initialize numeric array",
                            "buffer is too large for a Rust slice",
                        ),
                    );
                }
            },
            None => {
                return Err(
                    Error::new(
                        ErrorKind::Bounds,
                        "initialize numeric array",
                        "buffer is too large for a Rust slice",
                    ),
                );
            },
        }
    }
    Ok(())
}

/// Check a new dense numeric array of `dimensions` built from `values`
/// elements of `size` bytes, and return its element count.
///
/// # Errors
///
/// Returns the shape errors of [`validate_dimensions`] and
/// [`element_count`], then the errors of [`check_fill`].
pub fn check_numeric_values(dimensions: &[usize], values: usize, size: usize) -> (r: Result<usize>)
    ensures
        r matches Err(e) ==> e.is_plain(),
        r is Ok <==> dimensions@.len() >= 2 && count_fits(dimensions@) && prefix_product(
            dimensions@,
            dimensions@.len() as int,
        ) == values && (values == 0 || values * size <= MAX_SLICE_BYTES),
        r matches Ok(n) ==> n == values,
        r matches Err(e) ==> !(dimensions@.len() >= 2 && count_fits(dimensions@))
            ==> is_dimension_error(e, dimensions@),
        r matches Err(e) ==> dimensions@.len() >= 2 && count_fits(dimensions@) && prefix_product(
            dimensions@,
            dimensions@.len() as int,
        ) != values ==> e.kind == ErrorKind::InvalidInput && e.operation
            == "initialize numeric array" && e.detail@ == crate::error::count_detail(
            prefix_product(dimensions@, dimensions@.len() as int) as nat,
            "elements"@,
            values as nat,
        ),
        r matches Err(e) ==> dimensions@.len() >= 2 && count_fits(dimensions@) && prefix_product(
            dimensions@,
            dimensions@.len() as int,
        ) == values ==> e.kind == ErrorKind::Bounds && e.operation == "initialize numeric array",
{
    validate_dimensions(dimensions)?;
    let count = element_count(dimensions)?;
    check_fill(count, values, size)?;
    Ok(count)
}

/// Check that a dimension vector and a value count describe the same array.
pub fn check_shape(dimensions: &[usize], values: usize, operation: &'static str) -> (r: Result<usize>)
    ensures
        r matches Err(e) ==> e.is_plain(),
        r is Ok <==> dimensions@.len() >= 2 && count_fits(dimensions@) && prefix_product(
            dimensions@,
            dimensions@.len() as int,
        ) == values,
        r matches Ok(n) ==> n == values,
        r matches Err(e) ==> e.kind == ErrorKind::InvalidInput,
        r matches Err(e) ==> dimensions@.len() >= 2 && count_fits(dimensions@) ==> e.operation
            == operation && e.detail@ == "shape/value length mismatch"@,
        r matches Err(e) ==> !(dimensions@.len() >= 2 && count_fits(dimensions@))
            ==> is_dimension_error(e, dimensions@),
{
    validate_dimensions(dimensions)?;
    let count = element_count(dimensions)?;
    if count != values {
        return Err(Error::new(ErrorKind::InvalidInput, operation, "shape/value length mismatch"));
    }
    Ok(count)
}

/// Dimensions and column-major UTF-16 code units of a character array.
pub struct CharData {
    /// Dimension vector.
    pub dimensions: Vec<usize>,
    /// Code units in column-major order.
    pub units: Vec<u16>,
}

/// The UTF-16 encoding of each row.
pub open spec fn encoded_rows(rows: Seq<&str>) -> Seq<Seq<u16>> {
    Seq::new(rows.len(), |i: int| utf16_encode(rows[i]@))
}

/// The length of the longest row (zero when there is none).
pub open spec fn max_row_len(rows: Seq<Seq<u16>>) -> nat
    decreases rows.len(),
{
    if rows.len() == 0 {
        0
    } else {
        let rest = max_row_len(rows.drop_last());
        if rows.last().len() > rest {
            rows.last().len()
        } else {
            rest
        }
    }
}

/// The longest row length is at least every row's length and, when there
/// is a row, the length of one of them.
pub proof fn law_max_row_len(rows: Seq<Seq<u16>>)
    ensures
        forall|r: int| 0 <= r < rows.len() ==> (#[trigger] rows[r]).len() <= max_row_len(rows),
        rows.len() > 0 ==> exists|r: int| 0 <= r < rows.len() && (#[trigger] rows[r]).len()
            == max_row_len(rows),
        rows.len() == 0 ==> max_row_len(rows) == 0,
    decreases rows.len(),
{
    if rows.len() > 0 {
        law_max_row_len(rows.drop_last());
        let rest = rows.drop_last();
        assert forall|r: int| 0 <= r < rows.len() implies (#[trigger] rows[r]).len() <= max_row_len(
            rows,
        ) by {
            if r < rows.len() - 1 {
                assert(rows[r] == rest[r]);
            }
        }
        if rows.last().len() > max_row_len(rest) {
            assert(rows[rows.len() - 1].len() == max_row_len(rows));
        } else if rest.len() > 0 {
            let r = choose|r: int| 0 <= r < rest.len() && (#[trigger] rest[r]).len() == max_row_len(rest);
            assert(rows[r] == rest[r]);
        } else {
            assert(rows[0].len() == max_row_len(rows));
        }
    }
}

/// Code unit at column `c` of row `r`, padded with spaces past the row's end.
pub open spec fn padded_unit(rows: Seq<Seq<u16>>, r: int, c: int) -> u16 {
    if c < rows[r].len() {
        rows[r][c]
    } else {
        32
    }
}

/// The error for a dimension vector that MATLAB cannot take: too few
/// dimensions, then an element count that overflows.
pub open spec fn is_dimension_error(e: Error, d: Seq<usize>) -> bool {
    &&& e.kind == ErrorKind::InvalidInput
    &&& e.operation == "dimensions"
    &&& e.detail@ == (if d.len() < 2 {
        "MATLAB arrays require at least two dimensions"@
    } else {
        "element count overflow"@
    })
}

impl<'mex> crate::mex::Matlab<'mex> {
    /// Check the shape of a new dense numeric array and return its element
    /// count.
    pub fn uninit_numeric<T: Numeric>(&self, dimensions: &[usize]) -> (r: Result<usize>)
        ensures
            r matches Err(e) ==> e.is_plain(),
            r is Ok <==> dimensions@.len() >= 2 && count_fits(dimensions@),
            r matches Ok(n) ==> n == prefix_product(dimensions@, dimensions@.len() as int),
            r matches Err(e) ==> is_dimension_error(e, dimensions@),
    {
        validate_dimensions(dimensions)?;
        element_count(dimensions)
    }

    /// Check a new dense numeric array built from a complete element slice
    /// and return its element count.
    pub fn numeric<T: Numeric>(&self, dimensions: &[usize], values: &[T]) -> (r: Result<usize>)
        ensures
            r matches Err(e) ==> e.is_plain(),
            r is Ok <==> dimensions@.len() >= 2 && count_fits(dimensions@) && prefix_product(
                dimensions@,
                dimensions@.len() as int,
            ) == values@.len() && (values@.len() == 0 || values@.len() * T::spec_size()
                <= MAX_SLICE_BYTES),
            r matches Ok(n) ==> n == values@.len(),
            r matches Err(e) ==> !(dimensions@.len() >= 2 && count_fits(dimensions@))
                ==> is_dimension_error(e, dimensions@),
            r matches Err(e) ==> dimensions@.len() >= 2 && count_fits(dimensions@) && prefix_product(
                dimensions@,
                dimensions@.len() as int,
            ) != values@.len() ==> e.kind == ErrorKind::InvalidInput && e.operation
                == "initialize numeric array" && e.detail@ == crate::error::count_detail(
                prefix_product(dimensions@, dimensions@.len() as int) as nat,
                "elements"@,
                values@.len(),
            ),
    {
        check_numeric_values(dimensions, values.len(), T::size())
    }

    /// Check a new 1-by-1 numeric value.
    pub fn scalar<T: Numeric>(&self, value: T) -> (r: Result<usize>)
        ensures
            r matches Err(e) ==> e.is_plain(),
            r == Ok::<usize, Error>(1),
    {
        let mut dimensions: Vec<usize> = Vec::new();
        dimensions.push(1);
        dimensions.push(1);
        let mut values: Vec<T> = Vec::new();
        values.push(value);
        // The contract of `size` bounds the element size, so one element
        // always fits in a slice.
        let _size = T::size();
        proof {
            assert(dimensions@[0] == 1 && dimensions@[1] == 1);
            assert(prefix_product(dimensions@, 0) == 1);
            assert(prefix_product(dimensions@, 1) == 1);
            assert(prefix_product(dimensions@, 2) == 1);
            assert(count_fits(dimensions@));
            assert(1 * T::spec_size() <= 16);
        }
        let n = self.numeric::<T>(dimensions.as_slice(), values.as_slice())?;
        Ok(n)
    }

    /// Check a new dense logical array built from a complete value slice.
    pub fn logical(&self, dimensions: &[usize], values: &[bool]) -> (r: Result<usize>)
        ensures
            r matches Err(e) ==> e.is_plain(),
            r is Ok <==> dimensions@.len() >= 2 && count_fits(dimensions@) && prefix_product(
                dimensions@,
                dimensions@.len() as int,
            ) == values@.len(),
            r matches Ok(n) ==> n == values@.len(),
            r matches Err(e) ==> !(dimensions@.len() >= 2 && count_fits(dimensions@))
                ==> is_dimension_error(e, dimensions@),
            r matches Err(e) ==> dimensions@.len() >= 2 && count_fits(dimensions@) ==> e.kind
                == ErrorKind::InvalidInput && e.operation == "create logical" && e.detail@
                == "shape/value length mismatch"@,
    {
        check_shape(dimensions, values.len(), "create logical")
    }

    /// Check a new UTF-16 character array built from column-major code units.
    pub fn char_array(&self, dimensions: &[usize], values: &[u16]) -> (r: Result<usize>)
        ensures
            r matches Err(e) ==> e.is_plain(),
            r is Ok <==> dimensions@.len() >= 2 && count_fits(dimensions@) && prefix_product(
                dimensions@,
                dimensions@.len() as int,
            ) == values@.len(),
            r matches Ok(n) ==> n == values@.len(),
            r matches Err(e) ==> !(dimensions@.len() >= 2 && count_fits(dimensions@))
                ==> is_dimension_error(e, dimensions@),
            r matches Err(e) ==> dimensions@.len() >= 2 && count_fits(dimensions@) ==> e.kind
                == ErrorKind::InvalidInput && e.operation == "create character array" && e.detail@
                == "shape/value length mismatch"@,
    {
        check_shape(dimensions, values.len(), "create character array")
    }

    /// The 1-by-N UTF-16 character array of a string.
    pub fn string(&self, value: &str) -> (r: Result<CharData>)
        ensures
            r matches Err(e) ==> e.is_plain(),
            r matches Ok(data) && data.units@ == utf16_encode(value@) && data.dimensions@ == seq![
                1usize,
                data.units@.len() as usize,
            ],
    {
        let units = encode_utf16(value);
        let mut dimensions: Vec<usize> = Vec::new();
        dimensions.push(1);
        dimensions.push(units.len());
        Ok(CharData { dimensions, units })
    }

    /// The padded character matrix of UTF-8 rows: each row becomes one
    /// matrix row of UTF-16 code units, padded with spaces to the longest.
    ///
    /// # Errors
    ///
    /// Returns an input error when the element count overflows.
    pub fn char_matrix(&self, rows: &[&str]) -> (r: Result<CharData>)
        ensures
            r matches Err(e) ==> e.is_plain(),
            r is Ok <==> rows@.len() * max_row_len(encoded_rows(rows@)) <= usize::MAX,
            r matches Ok(data) ==> {
                let n = rows@.len();
                let width = max_row_len(encoded_rows(rows@));
                &&& data.dimensions@ == seq![n as usize, width as usize]
                &&& data.units@.len() == n * width
                &&& forall|i: int|
                    0 <= i < n ==> utf16_encode(#[trigger] rows@[i]@).len() <= data.dimensions@[1]
                &&& n > 0 ==> exists|i: int|
                    0 <= i < n && utf16_encode(#[trigger] rows@[i]@).len() == data.dimensions@[1]
                &&& n == 0 ==> data.dimensions@[1] == 0
                &&& forall|i: int|
                    0 <= i < data.units@.len() ==> #[trigger] data.units@[i] == padded_unit(
                        encoded_rows(rows@),
                        i % (n as int),
                        i / (n as int),
                    )
            },
            r matches Err(e) ==> e.kind == ErrorKind::InvalidInput && e.operation
                == "create character matrix" && e.detail@ == "element count overflow"@,
    {
        let n = rows.len();
        let ghost enc = encoded_rows(rows@);
        proof {
            law_max_row_len(enc);
            assert forall|i: int| 0 <= i < n implies #[trigger] enc[i] == utf16_encode(rows@[i]@) by {}
        }
        let mut encoded: Vec<Vec<u16>> = Vec::new();
        let mut width: usize = 0;
        let mut i: usize = 0;
        while i < n
            invariant
                n == rows@.len(),
                enc == encoded_rows(rows@),
                i <= n,
                encoded@.len() == i,
                forall|k: int| 0 <= k < i ==> (#[trigger] encoded@[k])@ == enc[k],
                width == max_row_len(enc.take(i as int)),
            decreases n - i,
        {
            let row = encode_utf16(rows[i]);
            proof {
                assert(enc.take(i + 1).drop_last() =~= enc.take(i as int));
                assert(enc.take(i + 1).last() == enc[i as int]);
            }
            if row.len() > width {
                width = row.len();
            }
            encoded.push(row);
            i = i + 1;
        }
        proof {
            assert(enc.take(n as int) =~= enc);
        }
        let count = match n.checked_mul(width) {
            Some(c) => c,
            None => {
                return Err(
                    Error::new(
                        ErrorKind::InvalidInput,
                        "create character matrix",
                        "element count overflow",
                    ),
                );
            },
        };
        let mut units: Vec<u16> = Vec::new();
        let mut k: usize = 0;
        while k < count
            invariant
                n == rows@.len(),
                enc == encoded_rows(rows@),
                encoded@.len() == n,
                forall|m: int| 0 <= m < n ==> (#[trigger] encoded@[m])@ == enc[m],
                count == n * width,
                k <= count,
                units@.len() == k,
                forall|m: int|
                    0 <= m < k ==> #[trigger] units@[m] == padded_unit(
                        enc,
                        m % (n as int),
                        m / (n as int),
                    ),
            decreases count - k,
        {
            proof {
                if n == 0 {
                    assert(count == 0);
                }
            }
            let r = k % n;
            let c = k / n;
            let unit = if c < encoded[r].len() {
                encoded[r][c]
            } else {
                32
            };
            units.push(unit);
            k = k + 1;
        }
        let mut dimensions: Vec<usize> = Vec::new();
        dimensions.push(n);
        dimensions.push(width);
        proof {
            assert(dimensions@[1] == width);
            assert forall|i: int| 0 <= i < n implies utf16_encode(#[trigger] rows@[i]@).len()
                <= dimensions@[1] by {
                assert(enc[i].len() <= max_row_len(enc));
            }
            if n > 0 {
                let r = choose|r: int| 0 <= r < enc.len() && (#[trigger] enc[r]).len() == max_row_len(enc);
                assert(utf16_encode(rows@[r]@).len() == dimensions@[1]);
            }
        }
        Ok(CharData { dimensions, units })
    }

    /// Check the shape of a new empty cell array and return its element count.
    pub fn cell(&self, dimensions: &[usize]) -> (r: Result<usize>)
        ensures
            r matches Err(e) ==> e.is_plain(),
            r is Ok <==> dimensions@.len() >= 2 && count_fits(dimensions@),
            r matches Ok(n) ==> n == prefix_product(dimensions@, dimensions@.len() as int),
            r matches Err(e) ==> is_dimension_error(e, dimensions@),
    {
        validate_dimensions(dimensions)?;
        element_count(dimensions)
    }

    /// Check the shape and field list of a new structure array and return
    /// the field count as MATLAB takes it.
    pub fn structure(&self, dimensions: &[usize], fields: &[&str]) -> (r: Result<i32>)
        ensures
            r matches Err(e) ==> e.is_plain(),
            r is Ok <==> dimensions@.len() >= 2 && count_fits(dimensions@) && fields@.len()
                <= i32::MAX,
            r matches Ok(n) ==> n == fields@.len(),
            r matches Err(e) ==> !(dimensions@.len() >= 2 && count_fits(dimensions@))
                ==> is_dimension_error(e, dimensions@),
            r matches Err(e) ==> dimensions@.len() >= 2 && count_fits(dimensions@) ==> e.kind
                == ErrorKind::InvalidInput && e.operation == "create struct" && e.detail@
                == "too many fields"@,
    {
        validate_dimensions(dimensions)?;
        element_count(dimensions)?;
        if fields.len() > 2147483647 {
            return Err(Error::new(ErrorKind::InvalidInput, "create struct", "too many fields"));
        }
        Ok(fields.len() as i32)
    }

    /// Check the compressed-column components of a new numeric sparse array
    /// of class `class` and return the capacity to allocate. MATLAB's
    /// published constructor creates double-precision sparse arrays only.
    pub fn sparse(
        &self,
        rows: usize,
        columns: usize,
        column_offsets: &[usize],
        row_indices: &[usize],
        values: usize,
        class: Class,
    ) -> (r: Result<usize>)
        ensures
            r matches Err(e) ==> e.is_plain(),
            r is Ok <==> sparse_fault(rows, columns, column_offsets@, row_indices@, values) is None
                && class == Class::Double,
            r matches Ok(n) ==> n == if values == 0 {
                1
            } else {
                values
            },
            r matches Err(e) ==> sparse_fault(rows, columns, column_offsets@, row_indices@, values)
                is None ==> e.kind == ErrorKind::InvalidInput && e.operation
                == "create sparse array" && e.detail@
                == "MATLAB's published numeric sparse constructor supports f64 and Complex<f64>"@,
            r matches Err(e) ==> sparse_fault(rows, columns, column_offsets@, row_indices@, values)
                is Some ==> e.kind == ErrorKind::InvalidInput && e.operation == "sparse"
                && sparse_fault(rows, columns, column_offsets@, row_indices@, values) == Some(e.detail@),
    {
        validate_sparse(rows, columns, column_offsets, row_indices, values)?;
        if class != Class::Double {
            return Err(
                Error::new(
                    ErrorKind::InvalidInput,
                    "create sparse array",
                    "MATLAB's published numeric sparse constructor supports f64 and Complex<f64>",
                ),
            );
        }
        Ok(
            if values == 0 {
                1
            } else {
                values
            },
        )
    }

    /// Check the compressed-column components of a new logical sparse array
    /// and return the capacity to allocate.
    pub fn logical_sparse(
        &self,
        rows: usize,
        columns: usize,
        column_offsets: &[usize],
        row_indices: &[usize],
        values: &[bool],
    ) -> (r: Result<usize>)
        ensures
            r matches Err(e) ==> e.is_plain(),
            r is Ok <==> sparse_fault(rows, columns, column_offsets@, row_indices@, values@.len() as usize)
                is None,
            r matches Ok(n) ==> n == if values@.len() == 0 {
                1
            } else {
                values@.len() as int
            },
            r matches Err(e) ==> e.kind == ErrorKind::InvalidInput && e.operation == "sparse"
                && sparse_fault(rows, columns, column_offsets@, row_indices@, values@.len() as usize)
                == Some(e.detail@),
    {
        validate_sparse(rows, columns, column_offsets, row_indices, values.len())?;
        Ok(
            if values.len() == 0 {
                1
            } else {
                values.len()
            },
        )
    }
}

/// Reading a character row created from a string gives the string back:
/// the units of `Matlab::string(s)` decode as UTF-16 to `s`.
pub proof fn law_string_read_back(s: Seq<char>)
    ensures
        utf16_decode(utf16_encode(s)) == Some(s),
{
    crate::chars::law_utf16_round_trip(s);
}

} // verus!

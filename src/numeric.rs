use vstd::prelude::*;

verus! {

/// Additive identity of an element type.
pub trait Zero: Sized {
    spec fn spec_zero() -> Self;

    fn zero() -> (r: Self)
        ensures
            r == Self::spec_zero(),
    ;
}

/// Multiplicative identity of an element type.
pub trait One: Sized {
    spec fn spec_one() -> Self;

    fn one() -> (r: Self)
        ensures
            r == Self::spec_one(),
    ;
}

/// What a matrix cell must offer: copying, sharing across threads, the two
/// identities, and addition, subtraction and multiplication, each defined
/// where its `*_ok` predicate holds and checked by its `*_fits` function.
pub trait Element: Copy + Zero + One + Send + Sync {
    spec fn plus_ok(a: Self, b: Self) -> bool;

    spec fn spec_plus(a: Self, b: Self) -> Self;

    spec fn minus_ok(a: Self, b: Self) -> bool;

    spec fn spec_minus(a: Self, b: Self) -> Self;

    spec fn times_ok(a: Self, b: Self) -> bool;

    spec fn spec_times(a: Self, b: Self) -> Self;

    fn plus(a: Self, b: Self) -> (r: Self)
        requires
            Self::plus_ok(a, b),
        ensures
            r == Self::spec_plus(a, b),
    ;

    fn minus(a: Self, b: Self) -> (r: Self)
        requires
            Self::minus_ok(a, b),
        ensures
            r == Self::spec_minus(a, b),
    ;

    fn times(a: Self, b: Self) -> (r: Self)
        requires
            Self::times_ok(a, b),
        ensures
            r == Self::spec_times(a, b),
    ;

    fn plus_fits(a: Self, b: Self) -> (r: bool)
        ensures
            r == Self::plus_ok(a, b),
    ;

    fn minus_fits(a: Self, b: Self) -> (r: bool)
        ensures
            r == Self::minus_ok(a, b),
    ;

    fn times_fits(a: Self, b: Self) -> (r: bool)
        ensures
            r == Self::times_ok(a, b),
    ;
}

/// The element-wise operations that the chunked engine applies.
#[derive(Clone, Copy, Debug, PartialEq, Eq)]
pub enum ElementOp {
    Add,
    Sub,
}

impl ElementOp {
    /// The operation is defined on `a` and `b` (no overflow).
    pub open spec fn defined<T: Element>(self, a: T, b: T) -> bool {
        match self {
            ElementOp::Add => T::plus_ok(a, b),
            ElementOp::Sub => T::minus_ok(a, b),
        }
    }

    /// The value of the operation on `a` and `b`.
    pub open spec fn apply<T: Element>(self, a: T, b: T) -> T {
        match self {
            ElementOp::Add => T::spec_plus(a, b),
            ElementOp::Sub => T::spec_minus(a, b),
        }
    }
}

/// Applies `op` to `value1` and `value2`.
pub fn operation<T: Element>(value1: T, value2: T, op: ElementOp) -> (r: T)
    requires
        op.defined(value1, value2),
    ensures
        r == op.apply(value1, value2),
{
    match op {
        ElementOp::Add => T::plus(value1, value2),
        ElementOp::Sub => T::minus(value1, value2),
    }
}

/// True when `op` is defined on `value1` and `value2`.
pub fn operation_fits<T: Element>(value1: T, value2: T, op: ElementOp) -> (r: bool)
    ensures
        r == op.defined(value1, value2),
{
    match op {
        ElementOp::Add => T::plus_fits(value1, value2),
        ElementOp::Sub => T::minus_fits(value1, value2),
    }
}

impl Zero for i8 {
    open spec fn spec_zero() -> i8 { 0 }

    fn zero() -> (r: i8) { 0 }
}

impl One for i8 {
    open spec fn spec_one() -> i8 { 1 }

    fn one() -> (r: i8) { 1 }
}

impl Element for i8 {
    open spec fn plus_ok(a: i8, b: i8) -> bool { i8::MIN <= a + b <= i8::MAX }

    open spec fn spec_plus(a: i8, b: i8) -> i8 { (a + b) as i8 }

    open spec fn minus_ok(a: i8, b: i8) -> bool { i8::MIN <= a - b <= i8::MAX }

    open spec fn spec_minus(a: i8, b: i8) -> i8 { (a - b) as i8 }

    open spec fn times_ok(a: i8, b: i8) -> bool { i8::MIN <= a * b <= i8::MAX }

    open spec fn spec_times(a: i8, b: i8) -> i8 { (a * b) as i8 }

    fn plus(a: i8, b: i8) -> (r: i8) { a + b }

    fn minus(a: i8, b: i8) -> (r: i8) { a - b }

    fn times(a: i8, b: i8) -> (r: i8) { a * b }

    fn plus_fits(a: i8, b: i8) -> (r: bool) { a.checked_add(b).is_some() }

    fn minus_fits(a: i8, b: i8) -> (r: bool) { a.checked_sub(b).is_some() }

    fn times_fits(a: i8, b: i8) -> (r: bool) { a.checked_mul(b).is_some() }
}

impl Zero for i16 {
    open spec fn spec_zero() -> i16 { 0 }

    fn zero() -> (r: i16) { 0 }
}

impl One for i16 {
    open spec fn spec_one() -> i16 { 1 }

    fn one() -> (r: i16) { 1 }
}

impl Element for i16 {
    open spec fn plus_ok(a: i16, b: i16) -> bool { i16::MIN <= a + b <= i16::MAX }

    open spec fn spec_plus(a: i16, b: i16) -> i16 { (a + b) as i16 }

    open spec fn minus_ok(a: i16, b: i16) -> bool { i16::MIN <= a - b <= i16::MAX }

    open spec fn spec_minus(a: i16, b: i16) -> i16 { (a - b) as i16 }

    open spec fn times_ok(a: i16, b: i16) -> bool { i16::MIN <= a * b <= i16::MAX }

    open spec fn spec_times(a: i16, b: i16) -> i16 { (a * b) as i16 }

    fn plus(a: i16, b: i16) -> (r: i16) { a + b }

    fn minus(a: i16, b: i16) -> (r: i16) { a - b }

    fn times(a: i16, b: i16) -> (r: i16) { a * b }

    fn plus_fits(a: i16, b: i16) -> (r: bool) { a.checked_add(b).is_some() }

    fn minus_fits(a: i16, b: i16) -> (r: bool) { a.checked_sub(b).is_some() }

    fn times_fits(a: i16, b: i16) -> (r: bool) { a.checked_mul(b).is_some() }
}

impl Zero for i32 {
    open spec fn spec_zero() -> i32 { 0 }

    fn zero() -> (r: i32) { 0 }
}

impl One for i32 {
    open spec fn spec_one() -> i32 { 1 }

    fn one() -> (r: i32) { 1 }
}

impl Element for i32 {
    open spec fn plus_ok(a: i32, b: i32) -> bool { i32::MIN <= a + b <= i32::MAX }

    open spec fn spec_plus(a: i32, b: i32) -> i32 { (a + b) as i32 }

    open spec fn minus_ok(a: i32, b: i32) -> bool { i32::MIN <= a - b <= i32::MAX }

    open spec fn spec_minus(a: i32, b: i32) -> i32 { (a - b) as i32 }

    open spec fn times_ok(a: i32, b: i32) -> bool { i32::MIN <= a * b <= i32::MAX }

    open spec fn spec_times(a: i32, b: i32) -> i32 { (a * b) as i32 }

    fn plus(a: i32, b: i32) -> (r: i32) { a + b }

    fn minus(a: i32, b: i32) -> (r: i32) { a - b }

    fn times(a: i32, b: i32) -> (r: i32) { a * b }

    fn plus_fits(a: i32, b: i32) -> (r: bool) { a.checked_add(b).is_some() }

    fn minus_fits(a: i32, b: i32) -> (r: bool) { a.checked_sub(b).is_some() }

    fn times_fits(a: i32, b: i32) -> (r: bool) { a.checked_mul(b).is_some() }
}

impl Zero for i64 {
    open spec fn spec_zero() -> i64 { 0 }

    fn zero() -> (r: i64) { 0 }
}

impl One for i64 {
    open spec fn spec_one() -> i64 { 1 }

    fn one() -> (r: i64) { 1 }
}

impl Element for i64 {
    open spec fn plus_ok(a: i64, b: i64) -> bool { i64::MIN <= a + b <= i64::MAX }

    open spec fn spec_plus(a: i64, b: i64) -> i64 { (a + b) as i64 }

    open spec fn minus_ok(a: i64, b: i64) -> bool { i64::MIN <= a - b <= i64::MAX }

    open spec fn spec_minus(a: i64, b: i64) -> i64 { (a - b) as i64 }

    open spec fn times_ok(a: i64, b: i64) -> bool { i64::MIN <= a * b <= i64::MAX }

    open spec fn spec_times(a: i64, b: i64) -> i64 { (a * b) as i64 }

    fn plus(a: i64, b: i64) -> (r: i64) { a + b }

    fn minus(a: i64, b: i64) -> (r: i64) { a - b }

    fn times(a: i64, b: i64) -> (r: i64) { a * b }

    fn plus_fits(a: i64, b: i64) -> (r: bool) { a.checked_add(b).is_some() }

    fn minus_fits(a: i64, b: i64) -> (r: bool) { a.checked_sub(b).is_some() }

    fn times_fits(a: i64, b: i64) -> (r: bool) { a.checked_mul(b).is_some() }
}

impl Zero for i128 {
    open spec fn spec_zero() -> i128 { 0 }

    fn zero() -> (r: i128) { 0 }
}

impl One for i128 {
    open spec fn spec_one() -> i128 { 1 }

    fn one() -> (r: i128) { 1 }
}

impl Element for i128 {
    open spec fn plus_ok(a: i128, b: i128) -> bool { i128::MIN <= a + b <= i128::MAX }

    open spec fn spec_plus(a: i128, b: i128) -> i128 { (a + b) as i128 }

    open spec fn minus_ok(a: i128, b: i128) -> bool { i128::MIN <= a - b <= i128::MAX }

    open spec fn spec_minus(a: i128, b: i128) -> i128 { (a - b) as i128 }

    open spec fn times_ok(a: i128, b: i128) -> bool { i128::MIN <= a * b <= i128::MAX }

    open spec fn spec_times(a: i128, b: i128) -> i128 { (a * b) as i128 }

    fn plus(a: i128, b: i128) -> (r: i128) { a + b }

    fn minus(a: i128, b: i128) -> (r: i128) { a - b }

    fn times(a: i128, b: i128) -> (r: i128) { a * b }

    fn plus_fits(a: i128, b: i128) -> (r: bool) { a.checked_add(b).is_some() }

    fn minus_fits(a: i128, b: i128) -> (r: bool) { a.checked_sub(b).is_some() }

    fn times_fits(a: i128, b: i128) -> (r: bool) { a.checked_mul(b).is_some() }
}

impl Zero for isize {
    open spec fn spec_zero() -> isize { 0 }

    fn zero() -> (r: isize) { 0 }
}

impl One for isize {
    open spec fn spec_one() -> isize { 1 }

    fn one() -> (r: isize) { 1 }
}

impl Element for isize {
    open spec fn plus_ok(a: isize, b: isize) -> bool { isize::MIN <= a + b <= isize::MAX }

    open spec fn spec_plus(a: isize, b: isize) -> isize { (a + b) as isize }

    open spec fn minus_ok(a: isize, b: isize) -> bool { isize::MIN <= a - b <= isize::MAX }

    open spec fn spec_minus(a: isize, b: isize) -> isize { (a - b) as isize }

    open spec fn times_ok(a: isize, b: isize) -> bool { isize::MIN <= a * b <= isize::MAX }

    open spec fn spec_times(a: isize, b: isize) -> isize { (a * b) as isize }

    fn plus(a: isize, b: isize) -> (r: isize) { a + b }

    fn minus(a: isize, b: isize) -> (r: isize) { a - b }

    fn times(a: isize, b: isize) -> (r: isize) { a * b }

    fn plus_fits(a: isize, b: isize) -> (r: bool) { a.checked_add(b).is_some() }

    fn minus_fits(a: isize, b: isize) -> (r: bool) { a.checked_sub(b).is_some() }

    fn times_fits(a: isize, b: isize) -> (r: bool) { a.checked_mul(b).is_some() }
}

impl Zero for u8 {
    open spec fn spec_zero() -> u8 { 0 }

    fn zero() -> (r: u8) { 0 }
}

impl One for u8 {
    open spec fn spec_one() -> u8 { 1 }

    fn one() -> (r: u8) { 1 }
}

impl Element for u8 {
    open spec fn plus_ok(a: u8, b: u8) -> bool { u8::MIN <= a + b <= u8::MAX }

    open spec fn spec_plus(a: u8, b: u8) -> u8 { (a + b) as u8 }

    open spec fn minus_ok(a: u8, b: u8) -> bool { u8::MIN <= a - b <= u8::MAX }

    open spec fn spec_minus(a: u8, b: u8) -> u8 { (a - b) as u8 }

    open spec fn times_ok(a: u8, b: u8) -> bool { u8::MIN <= a * b <= u8::MAX }

    open spec fn spec_times(a: u8, b: u8) -> u8 { (a * b) as u8 }

    fn plus(a: u8, b: u8) -> (r: u8) { a + b }

    fn minus(a: u8, b: u8) -> (r: u8) { a - b }

    fn times(a: u8, b: u8) -> (r: u8) { a * b }

    fn plus_fits(a: u8, b: u8) -> (r: bool) { a.checked_add(b).is_some() }

    fn minus_fits(a: u8, b: u8) -> (r: bool) { a.checked_sub(b).is_some() }

    fn times_fits(a: u8, b: u8) -> (r: bool) { a.checked_mul(b).is_some() }
}

impl Zero for u16 {
    open spec fn spec_zero() -> u16 { 0 }

    fn zero() -> (r: u16) { 0 }
}

impl One for u16 {
    open spec fn spec_one() -> u16 { 1 }

    fn one() -> (r: u16) { 1 }
}

impl Element for u16 {
    open spec fn plus_ok(a: u16, b: u16) -> bool { u16::MIN <= a + b <= u16::MAX }

    open spec fn spec_plus(a: u16, b: u16) -> u16 { (a + b) as u16 }

    open spec fn minus_ok(a: u16, b: u16) -> bool { u16::MIN <= a - b <= u16::MAX }

    open spec fn spec_minus(a: u16, b: u16) -> u16 { (a - b) as u16 }

    open spec fn times_ok(a: u16, b: u16) -> bool { u16::MIN <= a * b <= u16::MAX }

    open spec fn spec_times(a: u16, b: u16) -> u16 { (a * b) as u16 }

    fn plus(a: u16, b: u16) -> (r: u16) { a + b }

    fn minus(a: u16, b: u16) -> (r: u16) { a - b }

    fn times(a: u16, b: u16) -> (r: u16) { a * b }

    fn plus_fits(a: u16, b: u16) -> (r: bool) { a.checked_add(b).is_some() }

    fn minus_fits(a: u16, b: u16) -> (r: bool) { a.checked_sub(b).is_some() }

    fn times_fits(a: u16, b: u16) -> (r: bool) { a.checked_mul(b).is_some() }
}

impl Zero for u32 {
    open spec fn spec_zero() -> u32 { 0 }

    fn zero() -> (r: u32) { 0 }
}

impl One for u32 {
    open spec fn spec_one() -> u32 { 1 }

    fn one() -> (r: u32) { 1 }
}

impl Element for u32 {
    open spec fn plus_ok(a: u32, b: u32) -> bool { u32::MIN <= a + b <= u32::MAX }

    open spec fn spec_plus(a: u32, b: u32) -> u32 { (a + b) as u32 }

    open spec fn minus_ok(a: u32, b: u32) -> bool { u32::MIN <= a - b <= u32::MAX }

    open spec fn spec_minus(a: u32, b: u32) -> u32 { (a - b) as u32 }

    open spec fn times_ok(a: u32, b: u32) -> bool { u32::MIN <= a * b <= u32::MAX }

    open spec fn spec_times(a: u32, b: u32) -> u32 { (a * b) as u32 }

    fn plus(a: u32, b: u32) -> (r: u32) { a + b }

    fn minus(a: u32, b: u32) -> (r: u32) { a - b }

    fn times(a: u32, b: u32) -> (r: u32) { a * b }

    fn plus_fits(a: u32, b: u32) -> (r: bool) { a.checked_add(b).is_some() }

    fn minus_fits(a: u32, b: u32) -> (r: bool) { a.checked_sub(b).is_some() }

    fn times_fits(a: u32, b: u32) -> (r: bool) { a.checked_mul(b).is_some() }
}

impl Zero for u64 {
    open spec fn spec_zero() -> u64 { 0 }

    fn zero() -> (r: u64) { 0 }
}

impl One for u64 {
    open spec fn spec_one() -> u64 { 1 }

    fn one() -> (r: u64) { 1 }
}

impl Element for u64 {
    open spec fn plus_ok(a: u64, b: u64) -> bool { u64::MIN <= a + b <= u64::MAX }

    open spec fn spec_plus(a: u64, b: u64) -> u64 { (a + b) as u64 }

    open spec fn minus_ok(a: u64, b: u64) -> bool { u64::MIN <= a - b <= u64::MAX }

    open spec fn spec_minus(a: u64, b: u64) -> u64 { (a - b) as u64 }

    open spec fn times_ok(a: u64, b: u64) -> bool { u64::MIN <= a * b <= u64::MAX }

    open spec fn spec_times(a: u64, b: u64) -> u64 { (a * b) as u64 }

    fn plus(a: u64, b: u64) -> (r: u64) { a + b }

    fn minus(a: u64, b: u64) -> (r: u64) { a - b }

    fn times(a: u64, b: u64) -> (r: u64) { a * b }

    fn plus_fits(a: u64, b: u64) -> (r: bool) { a.checked_add(b).is_some() }

    fn minus_fits(a: u64, b: u64) -> (r: bool) { a.checked_sub(b).is_some() }

    fn times_fits(a: u64, b: u64) -> (r: bool) { a.checked_mul(b).is_some() }
}

impl Zero for u128 {
    open spec fn spec_zero() -> u128 { 0 }

    fn zero() -> (r: u128) { 0 }
}

impl One for u128 {
    open spec fn spec_one() -> u128 { 1 }

    fn one() -> (r: u128) { 1 }
}

impl Element for u128 {
    open spec fn plus_ok(a: u128, b: u128) -> bool { u128::MIN <= a + b <= u128::MAX }

    open spec fn spec_plus(a: u128, b: u128) -> u128 { (a + b) as u128 }

    open spec fn minus_ok(a: u128, b: u128) -> bool { u128::MIN <= a - b <= u128::MAX }

    open spec fn spec_minus(a: u128, b: u128) -> u128 { (a - b) as u128 }

    open spec fn times_ok(a: u128, b: u128) -> bool { u128::MIN <= a * b <= u128::MAX }

    open spec fn spec_times(a: u128, b: u128) -> u128 { (a * b) as u128 }

    fn plus(a: u128, b: u128) -> (r: u128) { a + b }

    fn minus(a: u128, b: u128) -> (r: u128) { a - b }

    fn times(a: u128, b: u128) -> (r: u128) { a * b }

    fn plus_fits(a: u128, b: u128) -> (r: bool) { a.checked_add(b).is_some() }

    fn minus_fits(a: u128, b: u128) -> (r: bool) { a.checked_sub(b).is_some() }

    fn times_fits(a: u128, b: u128) -> (r: bool) { a.checked_mul(b).is_some() }
}

impl Zero for usize {
    open spec fn spec_zero() -> usize { 0 }

    fn zero() -> (r: usize) { 0 }
}

impl One for usize {
    open spec fn spec_one() -> usize { 1 }

    fn one() -> (r: usize) { 1 }
}

impl Element for usize {
    open spec fn plus_ok(a: usize, b: usize) -> bool { usize::MIN <= a + b <= usize::MAX }

    open spec fn spec_plus(a: usize, b: usize) -> usize { (a + b) as usize }

    open spec fn minus_ok(a: usize, b: usize) -> bool { usize::MIN <= a - b <= usize::MAX }

    open spec fn spec_minus(a: usize, b: usize) -> usize { (a - b) as usize }

    open spec fn times_ok(a: usize, b: usize) -> bool { usize::MIN <= a * b <= usize::MAX }

    open spec fn spec_times(a: usize, b: usize) -> usize { (a * b) as usize }

    fn plus(a: usize, b: usize) -> (r: usize) { a + b }

    fn minus(a: usize, b: usize) -> (r: usize) { a - b }

    fn times(a: usize, b: usize) -> (r: usize) { a * b }

    fn plus_fits(a: usize, b: usize) -> (r: bool) { a.checked_add(b).is_some() }

    fn minus_fits(a: usize, b: usize) -> (r: bool) { a.checked_sub(b).is_some() }

    fn times_fits(a: usize, b: usize) -> (r: bool) { a.checked_mul(b).is_some() }
}

} // verus!

//! Access by position to tuples of three, five and six values of one type.

use vstd::prelude::*;

verus! {

/// The value at position `i` of a tuple of 3; the last one for a position
/// beyond the end.
pub open spec fn pick3<T>(t: (T, T, T), i: int) -> T {
    if i == 0 {
        t.0
    } else if i == 1 {
        t.1
    } else {
        t.2
    }
}

/// The tuple of 3 with the value at position `i` replaced by `v`; the last
/// one is replaced for a position beyond the end.
pub open spec fn put3<T>(t: (T, T, T), i: int, v: T) -> (T, T, T) {
    if i == 0 {
        (v, t.1, t.2)
    } else if i == 1 {
        (t.0, v, t.2)
    } else {
        (t.0, t.1, v)
    }
}

/// Borrows the value at position `i` of a tuple of 3; the last one for a
/// position beyond the end.
pub fn at3<T>(t: &(T, T, T), i: u8) -> (r: &T)
    ensures
        *r == pick3(*t, i as int),
{
    match i {
        0 => &t.0,
        1 => &t.1,
        _ => &t.2,
    }
}

/// Borrows the value at position `i` of a tuple of 3 for change; the last
/// one for a position beyond the end.
pub fn at3_mut<T>(t: &mut (T, T, T), i: u8) -> (r: &mut T)
    ensures
        *r == pick3(*old(t), i as int),
        *final(t) == put3(*old(t), i as int, *final(r)),
{
    match i {
        0 => &mut t.0,
        1 => &mut t.1,
        _ => &mut t.2,
    }
}

/// The value at position `i` of a tuple of 5; the last one for a position
/// beyond the end.
pub open spec fn pick5<T>(t: (T, T, T, T, T), i: int) -> T {
    if i == 0 {
        t.0
    } else if i == 1 {
        t.1
    } else if i == 2 {
        t.2
    } else if i == 3 {
        t.3
    } else {
        t.4
    }
}

/// The tuple of 5 with the value at position `i` replaced by `v`; the last
/// one is replaced for a position beyond the end.
pub open spec fn put5<T>(t: (T, T, T, T, T), i: int, v: T) -> (T, T, T, T, T) {
    if i == 0 {
        (v, t.1, t.2, t.3, t.4)
    } else if i == 1 {
        (t.0, v, t.2, t.3, t.4)
    } else if i == 2 {
        (t.0, t.1, v, t.3, t.4)
    } else if i == 3 {
        (t.0, t.1, t.2, v, t.4)
    } else {
        (t.0, t.1, t.2, t.3, v)
    }
}

/// Borrows the value at position `i` of a tuple of 5; the last one for a
/// position beyond the end.
pub fn at5<T>(t: &(T, T, T, T, T), i: u8) -> (r: &T)
    ensures
        *r == pick5(*t, i as int),
{
    match i {
        0 => &t.0,
        1 => &t.1,
        2 => &t.2,
        3 => &t.3,
        _ => &t.4,
    }
}

/// Borrows the value at position `i` of a tuple of 5 for change; the last
/// one for a position beyond the end.
pub fn at5_mut<T>(t: &mut (T, T, T, T, T), i: u8) -> (r: &mut T)
    ensures
        *r == pick5(*old(t), i as int),
        *final(t) == put5(*old(t), i as int, *final(r)),
{
    match i {
        0 => &mut t.0,
        1 => &mut t.1,
        2 => &mut t.2,
        3 => &mut t.3,
        _ => &mut t.4,
    }
}

/// The value at position `i` of a tuple of 6; the last one for a position
/// beyond the end.
pub open spec fn pick6<T>(t: (T, T, T, T, T, T), i: int) -> T {
    if i == 0 {
        t.0
    } else if i == 1 {
        t.1
    } else if i == 2 {
        t.2
    } else if i == 3 {
        t.3
    } else if i == 4 {
        t.4
    } else {
        t.5
    }
}

/// The tuple of 6 with the value at position `i` replaced by `v`; the last
/// one is replaced for a position beyond the end.
pub open spec fn put6<T>(t: (T, T, T, T, T, T), i: int, v: T) -> (T, T, T, T, T, T) {
    if i == 0 {
        (v, t.1, t.2, t.3, t.4, t.5)
    } else if i == 1 {
        (t.0, v, t.2, t.3, t.4, t.5)
    } else if i == 2 {
        (t.0, t.1, v, t.3, t.4, t.5)
    } else if i == 3 {
        (t.0, t.1, t.2, v, t.4, t.5)
    } else if i == 4 {
        (t.0, t.1, t.2, t.3, v, t.5)
    } else {
        (t.0, t.1, t.2, t.3, t.4, v)
    }
}

/// Borrows the value at position `i` of a tuple of 6; the last one for a
/// position beyond the end.
pub fn at6<T>(t: &(T, T, T, T, T, T), i: u8) -> (r: &T)
    ensures
        *r == pick6(*t, i as int),
{
    match i {
        0 => &t.0,
        1 => &t.1,
        2 => &t.2,
        3 => &t.3,
        4 => &t.4,
        _ => &t.5,
    }
}

/// Borrows the value at position `i` of a tuple of 6 for change; the last
/// one for a position beyond the end.
pub fn at6_mut<T>(t: &mut (T, T, T, T, T, T), i: u8) -> (r: &mut T)
    ensures
        *r == pick6(*old(t), i as int),
        *final(t) == put6(*old(t), i as int, *final(r)),
{
    match i {
        0 => &mut t.0,
        1 => &mut t.1,
        2 => &mut t.2,
        3 => &mut t.3,
        4 => &mut t.4,
        _ => &mut t.5,
    }
}

} // verus!
